//! Packets, probes, pauses, rates, and what has come of a wake.

use crate::clock::elapsed;
use crate::limits::{
    admits, after_allow, cooling, none_cooling, woken, RateBucket, RateKey, TargetModel,
};
use crate::probe::{magic_bytes, ports_for, probe_budget};
use crate::protocol::ResultModel;
use crate::request::accepted_ids;
use crate::wake::{Outcome, ProgressModel};
use vstd::prelude::*;

verus! {

/// A wake packet has six bytes of ones and then sixteen times the address of the
/// card.
pub proof fn a_wake_packet_repeats_the_address(mac: Seq<u8>, i: int, k: int)
    requires
        mac.len() == 6,
        0 <= i < 6,
        0 <= k < 16,
    ensures
        magic_bytes(mac).len() == 102,
        magic_bytes(mac)[i] == 0xff,
        magic_bytes(mac)[6 + 6 * k + i] == mac[i],
        magic_bytes(mac).subrange(6 + 6 * k, 12 + 6 * k) == mac,
{
    assert forall|j: int| 0 <= j < 6 implies #[trigger] magic_bytes(mac)[6 + 6 * k + j] == mac[j] by {
        assert((6 * k + j) % 6 == j) by (nonlinear_arith)
            requires
                0 <= j < 6,
                0 <= k,
        ;
    }
    assert forall|j: int| 0 <= j < 6 implies magic_bytes(mac).subrange(6 + 6 * k, 12 + 6 * k)[j]
        == mac[j] by {
        assert(magic_bytes(mac)[6 + 6 * k + j] == mac[j]);
    }
    assert(magic_bytes(mac).subrange(6 + 6 * k, 12 + 6 * k) =~= mac);
}

/// A host is looked for at its own port, or at six common ones, for a time between
/// a tenth of a second and five seconds that is the one that was set wherever that
/// lies between them.
pub proof fn a_probe_has_its_ports_and_its_time(probe_port: u16, timeout_ms: u64)
    ensures
        probe_port != 0 ==> ports_for(probe_port) == seq![probe_port],
        probe_port == 0 ==> ports_for(probe_port) == seq![22u16, 80, 443, 445, 3389, 5900],
        100_000_000 <= probe_budget(timeout_ms) <= 5_000_000_000,
        100 <= timeout_ms <= 5000 ==> probe_budget(timeout_ms) == timeout_ms * 1_000_000,
        timeout_ms < 100 ==> probe_budget(timeout_ms) == 100_000_000,
        timeout_ms > 5000 ==> probe_budget(timeout_ms) == 5_000_000_000,
{
}

/// The rate of a key is within its limit exactly if fewer than that many were let
/// through since its window began; after the window it begins anew. A key that has
/// no window gets one, while there is room for it.
pub proof fn a_rate_counts_within_its_window(
    buckets: Map<RateKey, RateBucket>,
    key: RateKey,
    limit: u32,
    window: u64,
    now: u64,
)
    requires
        buckets.dom().finite(),
    ensures
        ({
            let open = buckets.contains_key(key) && elapsed(buckets[key].started, now) < window;
            let others = buckets.dom().filter(
                |k: RateKey| elapsed(buckets[k].started, now) < window,
            );
            let after = after_allow(buckets, key, limit, window, now);
            &&& open ==> (admits(buckets, key, limit, window, now) <==> buckets[key].count < limit)
            &&& !open ==> (admits(buckets, key, limit, window, now) <==> limit > 0 && others.len()
                < 2048)
            &&& admits(buckets, key, limit, window, now) ==> after.contains_key(key)
                && after[key].count == if open {
                buckets[key].count + 1
            } else {
                1
            } && after[key].started == if open {
                buckets[key].started
            } else {
                now
            }
            &&& open && !admits(buckets, key, limit, window, now) ==> after.contains_key(key)
                && after[key] == buckets[key]
        }),
{
    let others = buckets.dom().filter(|k: RateKey| elapsed(buckets[k].started, now) < window);
    let left = crate::limits::open_buckets(buckets, window, now);
    assert(left.dom() =~= others);
}

proof fn woken_is(
    last_wake: Map<TargetModel, u64>,
    client_key: [u8; 32],
    host_ids: Seq<Seq<char>>,
    now: u64,
    target: TargetModel,
)
    ensures
        ({
            let after = woken(last_wake, client_key, host_ids, now);
            let named = target.client_key == client_key && host_ids.contains(target.host_id);
            &&& after.contains_key(target) <==> named || last_wake.contains_key(target)
            &&& named ==> after[target] == now
            &&& !named && last_wake.contains_key(target) ==> after[target] == last_wake[target]
        }),
    decreases host_ids.len(),
{
    if host_ids.len() > 0 {
        let front = host_ids.drop_last();
        woken_is(last_wake, client_key, front, now, target);
        if host_ids.contains(target.host_id) {
            let i = choose|i: int| 0 <= i < host_ids.len() && host_ids[i] == target.host_id;
            if i < front.len() {
                assert(front[i] == target.host_id);
            }
        }
        if front.contains(target.host_id) {
            let i = choose|i: int| 0 <= i < front.len() && front[i] == target.host_id;
            assert(host_ids[i] == target.host_id);
        }
        assert(host_ids[host_ids.len() - 1] == host_ids.last());
    }
}

/// A wake starts the pause of every host that it names, for the client that asked
/// and for no other; a host is in its pause for ten seconds.
pub proof fn a_wake_starts_the_pause_of_its_hosts(
    last_wake: Map<TargetModel, u64>,
    client_key: [u8; 32],
    host_ids: Seq<Seq<char>>,
    now: u64,
    target: TargetModel,
)
    ensures
        ({
            let after = woken(last_wake, client_key, host_ids, now);
            let named = target.client_key == client_key && host_ids.contains(target.host_id);
            &&& after.contains_key(target) <==> named || last_wake.contains_key(target)
            &&& named ==> after[target] == now
            &&& !named && last_wake.contains_key(target) ==> after[target] == last_wake[target]
            &&& cooling(last_wake, now).contains_key(target) <==> last_wake.contains_key(target)
                && now < last_wake[target] + 10_000_000_000
            &&& none_cooling(last_wake, client_key, host_ids) <==> forall|i: int|
                0 <= i < host_ids.len() ==> !last_wake.contains_key(
                    TargetModel { client_key, host_id: #[trigger] host_ids[i] },
                )
        }),
{
    woken_is(last_wake, client_key, host_ids, now, target);
}

/// A wake that has begun waits for a minute; its first receipt starts the minute
/// anew and a later one does not. A receipt says which hosts were accepted, and
/// only those count as seen.
pub proof fn a_wake_makes_progress(
    progress: ProgressModel,
    results: Seq<ResultModel>,
    now: u64,
    host: Seq<char>,
    other: Seq<char>,
)
    requires
        now <= crate::clock::CLOCK_END,
    ensures
        ({
            let begun = ProgressModel::begun(now);
            let received = progress.received(results, now);
            let observed = progress.observed(host);
            &&& begun.created_at == now && begun.deadline == now + 60_000_000_000
                && begun.started_at is None
            &&& !begun.accepted.contains(host) && !begun.online.contains(host)
            &&& received.created_at == progress.created_at && received.online == progress.online
            &&& received.accepted.contains(host) <==> exists|i: int|
                0 <= i < results.len() && (#[trigger] results[i]).accepted && results[i].host_id
                    == host
            &&& received.started_at == if progress.started_at is Some {
                progress.started_at
            } else {
                Some(now)
            }
            &&& received.deadline == if progress.started_at is Some {
                progress.deadline as int
            } else {
                now + 60_000_000_000
            }
            &&& observed.online.contains(other) <==> progress.online.contains(other) || (other
                == host && progress.accepted.contains(host))
            &&& observed.accepted == progress.accepted && observed.deadline == progress.deadline
                && observed.started_at == progress.started_at
        }),
{
    accepted_are(results, host);
}

proof fn accepted_are(results: Seq<ResultModel>, id: Seq<char>)
    ensures
        accepted_ids(results).contains(id) <==> exists|i: int|
            0 <= i < results.len() && (#[trigger] results[i]).accepted && results[i].host_id == id,
    decreases results.len(),
{
    if results.len() > 0 {
        let front = results.drop_last();
        accepted_are(front, id);
        let some = accepted_ids(front);
        let all = accepted_ids(results);
        let n = results.len() - 1;
        if all.contains(id) {
            let k = choose|k: int| 0 <= k < all.len() && all[k] == id;
            if k < some.len() {
                assert(some[k] == id);
                let i = choose|i: int|
                    0 <= i < front.len() && (#[trigger] front[i]).accepted && front[i].host_id
                        == id;
                assert(results[i].accepted && results[i].host_id == id);
            } else {
                assert(results[n].accepted && results[n].host_id == id);
            }
        }
        if exists|i: int|
            0 <= i < results.len() && (#[trigger] results[i]).accepted && results[i].host_id
                == id {
            let i = choose|i: int|
                0 <= i < results.len() && (#[trigger] results[i]).accepted && results[i].host_id
                    == id;
            if i < n {
                assert(front[i].accepted && front[i].host_id == id);
                let k = choose|k: int| 0 <= k < some.len() && some[k] == id;
                assert(all[k] == id);
            } else {
                assert(all[all.len() - 1] == id);
            }
        }
    }
}

/// A wake is complete exactly if all its hosts were accepted and seen, partial if
/// all that were accepted were seen but not all were accepted, rejected if none was
/// accepted; otherwise, and before its receipt, it is waited for.
pub proof fn an_outcome_is_what_was_seen(progress: ProgressModel, targets: Set<Seq<char>>)
    ensures
        ({
            let outcome = progress.outcome(targets);
            let answered = progress.started_at is Some;
            let some = exists|h: Seq<char>| progress.accepted.contains(h);
            let seen = forall|h: Seq<char>| #[trigger]
                progress.accepted.contains(h) ==> progress.online.contains(h);
            let all = forall|h: Seq<char>| #[trigger]
                targets.contains(h) ==> progress.accepted.contains(h);
            &&& outcome == Outcome::Complete <==> answered && some && seen && all
            &&& outcome == Outcome::Partial <==> answered && some && seen && !all
            &&& outcome == Outcome::Rejected <==> answered && !some
            &&& outcome == Outcome::Waiting <==> !answered || (some && !seen)
        }),
{
    if !(exists|h: Seq<char>| progress.accepted.contains(h)) {
        assert(progress.accepted =~= Set::<Seq<char>>::empty());
    }
}

} // verus!
