//! Determinism of the pool's control surface, stated over its observable
//! state: relays with their addresses, proxies and statuses, the attempt
//! record, the notification log, and the counts of sent events and
//! active filters.
//!
//! Two call surfaces that drive the same core operations from equivalent
//! observable state reach equivalent observable state with the same
//! success or error outcome: each operation's observable outcome is a
//! function of the observable pre-state and the operation's plain
//! arguments. Event deletion is not listed here: whether it signs or
//! fails rests with the identity library, the same call on either
//! surface, which no contract of this crate pins down.

use vstd::prelude::*;
use crate::client::{delete_event_effect, Client};
use crate::contact::{Contact, ContactValue};
use crate::errors::ClientError;
use crate::notifications::RelayPoolNotification;
use crate::outside::valid_event_id_text;
use crate::pool::{
    add_relay_effect, attempt_targets, connect_all_effect, connect_relay_effect,
    disconnect_relay_effect, has_relay, relays_wf, remove_relay_effect, send_event_effect,
    subscribe_effect, Relay, RelayPool, RelayStatus,
};

verus! {

/// The text of an optional proxy address.
pub open spec fn option_text(p: Option<String>) -> Option<Seq<char>> {
    match p {
        Some(s) => Some(s@),
        None => None,
    }
}

/// What is observable of one relay.
pub struct RelayObservation {
    pub url: Seq<char>,
    pub proxy: Option<Seq<char>>,
    pub status: RelayStatus,
}

/// The observable state of one relay entry.
pub open spec fn relay_obs(r: Relay) -> RelayObservation {
    RelayObservation { url: r.url@, proxy: option_text(r.proxy), status: r.status }
}

/// What is observable of a pool: everything a caller can compare across
/// two pools, with opaque outside values (sent events, filters) reduced
/// to their counts.
pub struct PoolObservation {
    pub relays: Seq<RelayObservation>,
    pub connect_attempts: Seq<Seq<char>>,
    pub notif_log: Seq<RelayPoolNotification>,
    pub capacity: int,
    pub sent_count: int,
    pub filter_count: int,
}

/// The observable state of a pool.
pub open spec fn pool_obs(p: RelayPool) -> PoolObservation {
    PoolObservation {
        relays: p.relays@.map_values(|r: Relay| relay_obs(r)),
        connect_attempts: p.connect_attempts@.map_values(|u: String| u@),
        notif_log: p.notif_log@,
        capacity: p.capacity as int,
        sent_count: p.sent@.len() as int,
        filter_count: p.filters@.len() as int,
    }
}

/// What is observable of a whole client: its pool, its contact values in
/// order, and whether its identity can sign.
pub struct ClientObservation {
    pub pool: PoolObservation,
    pub contacts: Seq<ContactValue>,
    pub can_sign: bool,
}

/// The observable state of a client.
pub open spec fn client_obs(c: Client) -> ClientObservation {
    ClientObservation {
        pool: pool_obs(c.pool),
        contacts: c.contacts@.map_values(|x: Contact| x@),
        can_sign: c.keys.can_sign(),
    }
}

/// Pools with equal observable state hold equally observable relay
/// entries, position by position.
proof fn lemma_obs_relays(p1: RelayPool, p2: RelayPool)
    requires
        pool_obs(p1) == pool_obs(p2),
    ensures
        p1.relays@.len() == p2.relays@.len(),
        forall|i: int|
            0 <= i < p1.relays@.len() ==> relay_obs(#[trigger] p1.relays@[i]) == relay_obs(
                p2.relays@[i],
            ),
{
    assert(pool_obs(p1).relays == pool_obs(p2).relays);
    assert(pool_obs(p1).relays.len() == p1.relays@.len());
    assert(pool_obs(p2).relays.len() == p2.relays@.len());
    assert forall|i: int|
        0 <= i < p1.relays@.len() implies relay_obs(#[trigger] p1.relays@[i]) == relay_obs(
        p2.relays@[i],
    ) by {
        assert(pool_obs(p1).relays[i] == relay_obs(p1.relays@[i]));
        assert(pool_obs(p2).relays[i] == relay_obs(p2.relays@[i]));
    }
}

/// Pools with equal observable state hold the same relay addresses.
proof fn lemma_obs_has_relay(p1: RelayPool, p2: RelayPool, url: Seq<char>)
    requires
        pool_obs(p1) == pool_obs(p2),
    ensures
        has_relay(p1.relays@, url) <==> has_relay(p2.relays@, url),
{
    lemma_obs_relays(p1, p2);
    if has_relay(p1.relays@, url) {
        let i = choose|i: int| 0 <= i < p1.relays@.len() && p1.relays@[i].url@ == url;
        assert(relay_obs(p1.relays@[i]) == relay_obs(p2.relays@[i]));
        assert(p2.relays@[i].url@ == url);
    }
    if has_relay(p2.relays@, url) {
        let i = choose|i: int| 0 <= i < p2.relays@.len() && p2.relays@[i].url@ == url;
        assert(relay_obs(p1.relays@[i]) == relay_obs(p2.relays@[i]));
        assert(p1.relays@[i].url@ == url);
    }
}

/// Registering the same relay on observably equal pools: the same
/// outcome, observably equal pools after.
pub proof fn lemma_add_relay_deterministic(
    p1: RelayPool,
    q1: RelayPool,
    p2: RelayPool,
    q2: RelayPool,
    url: Seq<char>,
    proxy1: Option<String>,
    proxy2: Option<String>,
    r1: Result<(), ClientError>,
    r2: Result<(), ClientError>,
)
    requires
        pool_obs(p1) == pool_obs(p2),
        option_text(proxy1) == option_text(proxy2),
        add_relay_effect(p1, q1, url, proxy1, r1),
        add_relay_effect(p2, q2, url, proxy2, r2),
    ensures
        r1 == r2,
        pool_obs(q1) == pool_obs(q2),
{
    lemma_obs_relays(p1, p2);
    lemma_obs_has_relay(p1, p2, url);
    if has_relay(p1.relays@, url) {
        assert(pool_obs(q1) == pool_obs(p1));
        assert(pool_obs(q2) == pool_obs(p2));
    } else {
        assert forall|i: int| 0 <= i < q1.relays@.len() implies relay_obs(#[trigger] q1.relays@[i])
            == relay_obs(q2.relays@[i]) by {
            if i < p1.relays@.len() {
                assert(q1.relays@[i] == p1.relays@[i]);
                assert(q2.relays@[i] == p2.relays@[i]);
                assert(relay_obs(p1.relays@[i]) == relay_obs(p2.relays@[i]));
            } else {
                assert(q1.relays@[i] == q1.relays@.last());
                assert(q2.relays@[i] == q2.relays@.last());
                assert(q1.relays@.last().status == RelayStatus::Disconnected);
                assert(q2.relays@.last().status == RelayStatus::Disconnected);
            }
        }
        assert forall|i: int|
            0 <= i < q1.relays@.len() implies pool_obs(q1).relays[i] == pool_obs(
            q2,
        ).relays[i] by {
            assert(pool_obs(q1).relays[i] == relay_obs(q1.relays@[i]));
            assert(pool_obs(q2).relays[i] == relay_obs(q2.relays@[i]));
        }
        assert(pool_obs(q1).relays =~= pool_obs(q2).relays);
        assert(pool_obs(q1).connect_attempts =~= pool_obs(q2).connect_attempts);
        assert(pool_obs(q1) == pool_obs(q2));
    }
}

/// Pools with equal observable state record equally observable connect
/// attempts, position by position.
proof fn lemma_obs_attempts(p1: RelayPool, p2: RelayPool)
    requires
        pool_obs(p1) == pool_obs(p2),
    ensures
        p1.connect_attempts@.len() == p2.connect_attempts@.len(),
        forall|i: int|
            0 <= i < p1.connect_attempts@.len() ==> (#[trigger] p1.connect_attempts@[i])@
                == p2.connect_attempts@[i]@,
{
    assert(pool_obs(p1).connect_attempts == pool_obs(p2).connect_attempts);
    assert(pool_obs(p1).connect_attempts.len() == p1.connect_attempts@.len());
    assert(pool_obs(p2).connect_attempts.len() == p2.connect_attempts@.len());
    assert forall|i: int|
        0 <= i < p1.connect_attempts@.len() implies (#[trigger] p1.connect_attempts@[i])@
        == p2.connect_attempts@[i]@ by {
        assert(pool_obs(p1).connect_attempts[i] == p1.connect_attempts@[i]@);
        assert(pool_obs(p2).connect_attempts[i] == p2.connect_attempts@[i]@);
    }
}

/// In a well-formed relay set, at most one position carries an address.
proof fn lemma_wf_unique_index(rs: Seq<Relay>, url: Seq<char>, i: int, j: int)
    requires
        relays_wf(rs),
        0 <= i < rs.len(),
        0 <= j < rs.len(),
        rs[i].url@ == url,
        rs[j].url@ == url,
    ensures
        i == j,
{
}

/// Forgetting the same relay on observably equal, well-formed pools:
/// the same outcome, observably equal pools after.
pub proof fn lemma_remove_relay_deterministic(
    p1: RelayPool,
    q1: RelayPool,
    p2: RelayPool,
    q2: RelayPool,
    url: Seq<char>,
    r1: Result<(), ClientError>,
    r2: Result<(), ClientError>,
)
    requires
        pool_obs(p1) == pool_obs(p2),
        relays_wf(p1.relays@),
        relays_wf(p2.relays@),
        remove_relay_effect(p1, q1, url, r1),
        remove_relay_effect(p2, q2, url, r2),
    ensures
        r1 == r2,
        pool_obs(q1) == pool_obs(q2),
{
    lemma_obs_relays(p1, p2);
    lemma_obs_has_relay(p1, p2, url);
    if has_relay(p1.relays@, url) {
        let i1 = choose|i: int|
            0 <= i < p1.relays@.len() && p1.relays@[i].url@ == url && q1.relays@
                == p1.relays@.remove(i);
        let i2 = choose|i: int|
            0 <= i < p2.relays@.len() && p2.relays@[i].url@ == url && q2.relays@
                == p2.relays@.remove(i);
        assert(relay_obs(p1.relays@[i2]) == relay_obs(p2.relays@[i2]));
        lemma_wf_unique_index(p1.relays@, url, i1, i2);
        assert forall|k: int| 0 <= k < q1.relays@.len() implies relay_obs(#[trigger] q1.relays@[k])
            == relay_obs(q2.relays@[k]) by {
            let kk: int = if k < i1 {
                k
            } else {
                k + 1
            };
            assert(q1.relays@[k] == p1.relays@[kk]);
            assert(q2.relays@[k] == p2.relays@[kk]);
            assert(relay_obs(p1.relays@[kk]) == relay_obs(p2.relays@[kk]));
        }
        assert forall|k: int|
            0 <= k < q1.relays@.len() implies pool_obs(q1).relays[k] == pool_obs(
            q2,
        ).relays[k] by {
            assert(pool_obs(q1).relays[k] == relay_obs(q1.relays@[k]));
            assert(pool_obs(q2).relays[k] == relay_obs(q2.relays@[k]));
        }
        assert(pool_obs(q1).relays =~= pool_obs(q2).relays);
        assert(pool_obs(q1).connect_attempts =~= pool_obs(q2).connect_attempts);
        assert(pool_obs(q1) == pool_obs(q2));
    } else {
        assert(pool_obs(q1) == pool_obs(p1));
        assert(pool_obs(q2) == pool_obs(p2));
    }
}

/// Connecting the same relay on observably equal, well-formed pools:
/// the same outcome, observably equal pools after.
pub proof fn lemma_connect_relay_deterministic(
    p1: RelayPool,
    q1: RelayPool,
    p2: RelayPool,
    q2: RelayPool,
    url: Seq<char>,
    r1: Result<(), ClientError>,
    r2: Result<(), ClientError>,
)
    requires
        pool_obs(p1) == pool_obs(p2),
        relays_wf(p1.relays@),
        relays_wf(p2.relays@),
        connect_relay_effect(p1, q1, url, r1),
        connect_relay_effect(p2, q2, url, r2),
    ensures
        r1 == r2,
        pool_obs(q1) == pool_obs(q2),
{
    lemma_obs_relays(p1, p2);
    lemma_obs_attempts(p1, p2);
    lemma_obs_has_relay(p1, p2, url);
    if has_relay(p1.relays@, url) {
        let i1 = choose|i: int|
            0 <= i < p1.relays@.len() && p1.relays@[i].url@ == url && q1.relays@[i].status
                is Connected && (forall|k: int|
                0 <= k < p1.relays@.len() && k != i ==> q1.relays@[k] == p1.relays@[k]);
        let i2 = choose|i: int|
            0 <= i < p2.relays@.len() && p2.relays@[i].url@ == url && q2.relays@[i].status
                is Connected && (forall|k: int|
                0 <= k < p2.relays@.len() && k != i ==> q2.relays@[k] == p2.relays@[k]);
        assert(relay_obs(p1.relays@[i2]) == relay_obs(p2.relays@[i2]));
        lemma_wf_unique_index(p1.relays@, url, i1, i2);
        assert forall|k: int| 0 <= k < q1.relays@.len() implies relay_obs(#[trigger] q1.relays@[k])
            == relay_obs(q2.relays@[k]) by {
            assert(relay_obs(p1.relays@[k]) == relay_obs(p2.relays@[k]));
            if k != i1 {
                assert(q1.relays@[k] == p1.relays@[k]);
                assert(q2.relays@[k] == p2.relays@[k]);
            } else {
                assert(q1.relays@[k].url == p1.relays@[k].url);
                assert(q1.relays@[k].proxy == p1.relays@[k].proxy);
                assert(q2.relays@[k].url == p2.relays@[k].url);
                assert(q2.relays@[k].proxy == p2.relays@[k].proxy);
                assert(q1.relays@[k].status == RelayStatus::Connected);
                assert(q2.relays@[k].status == RelayStatus::Connected);
            }
        }
        assert forall|k: int|
            0 <= k < q1.relays@.len() implies pool_obs(q1).relays[k] == pool_obs(
            q2,
        ).relays[k] by {
            assert(pool_obs(q1).relays[k] == relay_obs(q1.relays@[k]));
            assert(pool_obs(q2).relays[k] == relay_obs(q2.relays@[k]));
        }
        assert forall|k: int|
            0 <= k < q1.connect_attempts@.len() implies pool_obs(q1).connect_attempts[k]
            == pool_obs(q2).connect_attempts[k] by {
            assert(pool_obs(q1).connect_attempts[k] == q1.connect_attempts@[k]@);
            assert(pool_obs(q2).connect_attempts[k] == q2.connect_attempts@[k]@);
            if k < p1.connect_attempts@.len() {
                assert(q1.connect_attempts@[k] == p1.connect_attempts@[k]);
                assert(q2.connect_attempts@[k] == p2.connect_attempts@[k]);
            } else {
                assert(q1.connect_attempts@[k] == q1.connect_attempts@.last());
                assert(q2.connect_attempts@[k] == q2.connect_attempts@.last());
            }
        }
        assert(pool_obs(q1).relays =~= pool_obs(q2).relays);
        assert(pool_obs(q1).connect_attempts =~= pool_obs(q2).connect_attempts);
        assert(pool_obs(q1) == pool_obs(q2));
    } else {
        assert(pool_obs(q1) == pool_obs(p1));
        assert(pool_obs(q2) == pool_obs(p2));
    }
}

/// Disconnecting the same relay on observably equal, well-formed pools:
/// the same outcome, observably equal pools after.
pub proof fn lemma_disconnect_relay_deterministic(
    p1: RelayPool,
    q1: RelayPool,
    p2: RelayPool,
    q2: RelayPool,
    url: Seq<char>,
    r1: Result<(), ClientError>,
    r2: Result<(), ClientError>,
)
    requires
        pool_obs(p1) == pool_obs(p2),
        relays_wf(p1.relays@),
        relays_wf(p2.relays@),
        disconnect_relay_effect(p1, q1, url, r1),
        disconnect_relay_effect(p2, q2, url, r2),
    ensures
        r1 == r2,
        pool_obs(q1) == pool_obs(q2),
{
    lemma_obs_relays(p1, p2);
    lemma_obs_has_relay(p1, p2, url);
    if has_relay(p1.relays@, url) {
        let i1 = choose|i: int|
            0 <= i < p1.relays@.len() && p1.relays@[i].url@ == url && q1.relays@[i].status
                is Disconnected && (forall|k: int|
                0 <= k < p1.relays@.len() && k != i ==> q1.relays@[k] == p1.relays@[k]);
        let i2 = choose|i: int|
            0 <= i < p2.relays@.len() && p2.relays@[i].url@ == url && q2.relays@[i].status
                is Disconnected && (forall|k: int|
                0 <= k < p2.relays@.len() && k != i ==> q2.relays@[k] == p2.relays@[k]);
        assert(relay_obs(p1.relays@[i2]) == relay_obs(p2.relays@[i2]));
        lemma_wf_unique_index(p1.relays@, url, i1, i2);
        assert forall|k: int| 0 <= k < q1.relays@.len() implies relay_obs(#[trigger] q1.relays@[k])
            == relay_obs(q2.relays@[k]) by {
            assert(relay_obs(p1.relays@[k]) == relay_obs(p2.relays@[k]));
            if k != i1 {
                assert(q1.relays@[k] == p1.relays@[k]);
                assert(q2.relays@[k] == p2.relays@[k]);
            } else {
                assert(q1.relays@[k].url == p1.relays@[k].url);
                assert(q1.relays@[k].proxy == p1.relays@[k].proxy);
                assert(q2.relays@[k].url == p2.relays@[k].url);
                assert(q2.relays@[k].proxy == p2.relays@[k].proxy);
                assert(q1.relays@[k].status == RelayStatus::Disconnected);
                assert(q2.relays@[k].status == RelayStatus::Disconnected);
            }
        }
        assert forall|k: int|
            0 <= k < q1.relays@.len() implies pool_obs(q1).relays[k] == pool_obs(
            q2,
        ).relays[k] by {
            assert(pool_obs(q1).relays[k] == relay_obs(q1.relays@[k]));
            assert(pool_obs(q2).relays[k] == relay_obs(q2.relays@[k]));
        }
        assert(pool_obs(q1).relays =~= pool_obs(q2).relays);
        assert(pool_obs(q1).connect_attempts =~= pool_obs(q2).connect_attempts);
        assert(pool_obs(q1) == pool_obs(q2));
    } else {
        assert(pool_obs(q1) == pool_obs(p1));
        assert(pool_obs(q2) == pool_obs(p2));
    }
}

/// Relay sequences that are observably equal position by position have
/// observably equal connect-everything targets.
proof fn lemma_attempt_targets_obs(rs1: Seq<Relay>, rs2: Seq<Relay>)
    requires
        rs1.len() == rs2.len(),
        forall|i: int|
            0 <= i < rs1.len() ==> relay_obs(#[trigger] rs1[i]) == relay_obs(rs2[i]),
    ensures
        attempt_targets(rs1).len() == attempt_targets(rs2).len(),
        forall|k: int|
            0 <= k < attempt_targets(rs1).len() ==> (#[trigger] attempt_targets(rs1)[k])@
                == attempt_targets(rs2)[k]@,
    decreases rs1.len(),
{
    if rs1.len() > 0 {
        assert(forall|i: int|
            0 <= i < rs1.drop_last().len() ==> #[trigger] rs1.drop_last()[i] == rs1[i]);
        assert(forall|i: int|
            0 <= i < rs2.drop_last().len() ==> #[trigger] rs2.drop_last()[i] == rs2[i]);
        lemma_attempt_targets_obs(rs1.drop_last(), rs2.drop_last());
        assert(relay_obs(rs1[rs1.len() - 1]) == relay_obs(rs2[rs2.len() - 1]));
        assert(rs1.last() == rs1[rs1.len() - 1]);
        assert(rs2.last() == rs2[rs2.len() - 1]);
        let a1 = attempt_targets(rs1.drop_last());
        let a2 = attempt_targets(rs2.drop_last());
        if rs1.last().status is Disconnected {
            assert(attempt_targets(rs1) == a1 + seq![rs1.last().url]);
            assert(attempt_targets(rs2) == a2 + seq![rs2.last().url]);
            assert forall|k: int|
                0 <= k < attempt_targets(rs1).len() implies (#[trigger] attempt_targets(
                rs1,
            )[k])@ == attempt_targets(rs2)[k]@ by {
                if k < a1.len() {
                    assert(attempt_targets(rs1)[k] == a1[k]);
                    assert(attempt_targets(rs2)[k] == a2[k]);
                } else {
                    assert(attempt_targets(rs1)[k] == rs1.last().url);
                    assert(attempt_targets(rs2)[k] == rs2.last().url);
                }
            }
        } else {
            assert(attempt_targets(rs1) =~= a1);
            assert(attempt_targets(rs2) =~= a2);
        }
    }
}

/// Connecting everything on observably equal pools: the same outcome,
/// observably equal pools after, the same relays attempted.
pub proof fn lemma_connect_all_deterministic(
    p1: RelayPool,
    q1: RelayPool,
    p2: RelayPool,
    q2: RelayPool,
    r1: Result<(), ClientError>,
    r2: Result<(), ClientError>,
)
    requires
        pool_obs(p1) == pool_obs(p2),
        connect_all_effect(p1, q1, r1),
        connect_all_effect(p2, q2, r2),
    ensures
        r1 == r2,
        pool_obs(q1) == pool_obs(q2),
{
    lemma_obs_relays(p1, p2);
    lemma_obs_attempts(p1, p2);
    assert forall|i: int| 0 <= i < p1.relays@.len() implies relay_obs(#[trigger] p1.relays@[i])
        == relay_obs(p2.relays@[i]) by {}
    lemma_attempt_targets_obs(p1.relays@, p2.relays@);
    assert forall|k: int| 0 <= k < q1.relays@.len() implies relay_obs(#[trigger] q1.relays@[k])
        == relay_obs(q2.relays@[k]) by {
        assert(relay_obs(p1.relays@[k]) == relay_obs(p2.relays@[k]));
        assert(q1.relays@[k].url == p1.relays@[k].url);
        assert(q1.relays@[k].proxy == p1.relays@[k].proxy);
        assert(q2.relays@[k].url == p2.relays@[k].url);
        assert(q2.relays@[k].proxy == p2.relays@[k].proxy);
        assert(q1.relays@[k].status is Connected);
        assert(q2.relays@[k].status is Connected);
        assert(q1.relays@[k].status == RelayStatus::Connected);
        assert(q2.relays@[k].status == RelayStatus::Connected);
    }
    assert forall|k: int|
        0 <= k < q1.relays@.len() implies pool_obs(q1).relays[k] == pool_obs(q2).relays[k] by {
        assert(pool_obs(q1).relays[k] == relay_obs(q1.relays@[k]));
        assert(pool_obs(q2).relays[k] == relay_obs(q2.relays@[k]));
    }
    let t1 = attempt_targets(p1.relays@);
    let t2 = attempt_targets(p2.relays@);
    assert(q1.connect_attempts@ == p1.connect_attempts@ + t1);
    assert(q2.connect_attempts@ == p2.connect_attempts@ + t2);
    assert forall|k: int|
        0 <= k < q1.connect_attempts@.len() implies pool_obs(q1).connect_attempts[k] == pool_obs(
        q2,
    ).connect_attempts[k] by {
        assert(pool_obs(q1).connect_attempts[k] == q1.connect_attempts@[k]@);
        assert(pool_obs(q2).connect_attempts[k] == q2.connect_attempts@[k]@);
        if k < p1.connect_attempts@.len() {
            assert(q1.connect_attempts@[k] == p1.connect_attempts@[k]);
            assert(q2.connect_attempts@[k] == p2.connect_attempts@[k]);
        } else {
            assert(q1.connect_attempts@[k] == t1[k - p1.connect_attempts@.len()]);
            assert(q2.connect_attempts@[k] == t2[k - p2.connect_attempts@.len()]);
        }
    }
    assert(pool_obs(q1).relays =~= pool_obs(q2).relays);
    assert(pool_obs(q1).connect_attempts =~= pool_obs(q2).connect_attempts);
    assert(pool_obs(q1) == pool_obs(q2));
}

/// Applying filter sets of equal size on observably equal pools: the
/// same outcome, observably equal pools after.
pub proof fn lemma_subscribe_deterministic(
    p1: RelayPool,
    q1: RelayPool,
    p2: RelayPool,
    q2: RelayPool,
    filters1: Seq<nostr_sdk_base::SubscriptionFilter>,
    filters2: Seq<nostr_sdk_base::SubscriptionFilter>,
    r1: Result<(), ClientError>,
    r2: Result<(), ClientError>,
)
    requires
        pool_obs(p1) == pool_obs(p2),
        filters1.len() == filters2.len(),
        subscribe_effect(p1, q1, filters1, r1),
        subscribe_effect(p2, q2, filters2, r2),
    ensures
        r1 == r2,
        pool_obs(q1) == pool_obs(q2),
{
    assert(pool_obs(q1).relays == pool_obs(p1).relays);
    assert(pool_obs(q2).relays == pool_obs(p2).relays);
    assert(pool_obs(q1).connect_attempts == pool_obs(p1).connect_attempts);
    assert(pool_obs(q2).connect_attempts == pool_obs(p2).connect_attempts);
    assert(pool_obs(q1) == pool_obs(q2));
}

/// Sending an event on observably equal pools: the same outcome, one
/// more recorded send on each, observably equal pools after.
pub proof fn lemma_send_event_deterministic(
    p1: RelayPool,
    q1: RelayPool,
    p2: RelayPool,
    q2: RelayPool,
    event1: nostr_sdk_base::Event,
    event2: nostr_sdk_base::Event,
    r1: Result<(), ClientError>,
    r2: Result<(), ClientError>,
)
    requires
        pool_obs(p1) == pool_obs(p2),
        send_event_effect(p1, q1, event1, r1),
        send_event_effect(p2, q2, event2, r2),
    ensures
        r1 == r2,
        pool_obs(q1) == pool_obs(q2),
{
    assert(pool_obs(q1).relays == pool_obs(p1).relays);
    assert(pool_obs(q2).relays == pool_obs(p2).relays);
    assert(pool_obs(q1).connect_attempts == pool_obs(p1).connect_attempts);
    assert(pool_obs(q2).connect_attempts == pool_obs(p2).connect_attempts);
    assert(pool_obs(q1) == pool_obs(q2));
}

/// Deleting the same event id on observably equal clients: the same
/// outcome — the parse error, the signing error, or success — and
/// observably equal clients after. The outcome hangs only on the id text
/// and on whether the identity can sign, both observable, so the blocking
/// and the async surface cannot part ways here either.
pub proof fn lemma_delete_event_deterministic(
    c1: Client,
    d1: Client,
    c2: Client,
    d2: Client,
    event_id: Seq<char>,
    r1: Result<(), ClientError>,
    r2: Result<(), ClientError>,
)
    requires
        client_obs(c1) == client_obs(c2),
        delete_event_effect(c1, d1, event_id, r1),
        delete_event_effect(c2, d2, event_id, r2),
    ensures
        r1 == r2,
        client_obs(d1) == client_obs(d2),
{
    assert(client_obs(c1).can_sign == client_obs(c2).can_sign);
    assert(c1.keys.can_sign() == c2.keys.can_sign());
    if !valid_event_id_text(event_id) {
        assert(r1 == Err::<(), ClientError>(ClientError::Parse));
        assert(r2 == Err::<(), ClientError>(ClientError::Parse));
        assert(d1 == c1);
        assert(d2 == c2);
    } else if !c1.keys.can_sign() {
        assert(r1 == Err::<(), ClientError>(ClientError::Signing));
        assert(r2 == Err::<(), ClientError>(ClientError::Signing));
        assert(d1 == c1);
        assert(d2 == c2);
    } else {
        assert(r1 == Ok::<(), ClientError>(()));
        assert(r2 == Ok::<(), ClientError>(()));
        let ev1 = choose|ev: nostr_sdk_base::Event| send_event_effect(c1.pool, d1.pool, ev, r1);
        let ev2 = choose|ev: nostr_sdk_base::Event| send_event_effect(c2.pool, d2.pool, ev, r2);
        assert(send_event_effect(c1.pool, d1.pool, ev1, r1));
        assert(send_event_effect(c2.pool, d2.pool, ev2, r2));
        assert(pool_obs(d1.pool).relays == pool_obs(c1.pool).relays);
        assert(pool_obs(d2.pool).relays == pool_obs(c2.pool).relays);
        assert(pool_obs(d1.pool).connect_attempts == pool_obs(c1.pool).connect_attempts);
        assert(pool_obs(d2.pool).connect_attempts == pool_obs(c2.pool).connect_attempts);
        assert(client_obs(c1).pool == client_obs(c2).pool);
        assert(pool_obs(d1.pool) == pool_obs(d2.pool));
        assert(client_obs(d1).contacts == client_obs(c1).contacts);
        assert(client_obs(d2).contacts == client_obs(c2).contacts);
        assert(client_obs(d1) == client_obs(d2));
    }
}

} // verus!
