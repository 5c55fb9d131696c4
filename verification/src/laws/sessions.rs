//! Connections, sessions, and the watch over woken hosts.

use crate::clock::elapsed;
use crate::laws::lists::filtered_has;
use crate::limits::{admits, after_allow, held, RateKey};
use crate::net::{quota_address, IpAddress};
use crate::policy::{access_of, id_set};
use crate::protocol::{ClientEnvelope, ErrorCode};
use crate::replay::ReplayKey;
use crate::request::MonitorModel;
use crate::server::ServerRuntime;
use crate::session::{
    counted, in_rate, is_judgement, is_timely, next_due, one_more, same_counts, unfinished, unseen,
    unsuperseded, MessageVerdict, SessionModel,
};
use crate::snapshot::{entry_ids, HostEntry};
use crate::text::texts;
use vstd::prelude::*;

verus! {

/// A watch over distinct hosts that has seen some of them, each once.
pub open spec fn is_sound_watch(monitor: MonitorModel) -> bool {
    &&& entry_ids(monitor.targets).no_duplicates()
    &&& monitor.online.no_duplicates()
    &&& forall|i: int|
        0 <= i < monitor.online.len() ==> entry_ids(monitor.targets).contains(
            #[trigger] monitor.online[i],
        )
}

/// A watch over distinct hosts of which none has been seen is sound, and stays so
/// as hosts of it are seen.
pub proof fn a_watch_stays_sound(monitor: MonitorModel, host: Seq<char>)
    ensures
        entry_ids(monitor.targets).no_duplicates() && monitor.online.len() == 0 ==> is_sound_watch(
            monitor,
        ),
        is_sound_watch(monitor) && entry_ids(monitor.targets).contains(host)
            && !monitor.online.contains(host) ==> is_sound_watch(
            MonitorModel { online: monitor.online.push(host), ..monitor },
        ),
{
    let more = monitor.online.push(host);
    if is_sound_watch(monitor) && entry_ids(monitor.targets).contains(host)
        && !monitor.online.contains(host) {
        assert forall|i: int| 0 <= i < more.len() implies entry_ids(monitor.targets).contains(
            #[trigger] more[i],
        ) by {
            if i < monitor.online.len() {
                assert(more[i] == monitor.online[i]);
            }
        }
        assert forall|i: int, j: int| 0 <= i < more.len() && 0 <= j < more.len() && i != j implies more[i]
            != more[j] by {
            if i < monitor.online.len() && j < monitor.online.len() {
                assert(more[i] == monitor.online[i] && more[j] == monitor.online[j]);
            }
        }
    }
}

/// A sound watch has fewer sightings than hosts exactly if one of its hosts has
/// not been seen.
proof fn fewer_seen_means_one_unseen(monitor: MonitorModel)
    requires
        is_sound_watch(monitor),
    ensures
        monitor.online.len() < monitor.targets.len() <==> exists|i: int|
            0 <= i < monitor.targets.len() && !monitor.online.contains(
                (#[trigger] monitor.targets[i]).id@,
            ),
{
    let ids = entry_ids(monitor.targets);
    let online = monitor.online;
    ids.unique_seq_to_set();
    online.unique_seq_to_set();
    assert(online.to_set().subset_of(ids.to_set())) by {
        assert forall|x: Seq<char>| #[trigger] online.to_set().contains(x) implies ids.to_set().contains(
            x,
        ) by {
            let i = choose|i: int| 0 <= i < online.len() && online[i] == x;
            assert(ids.contains(online[i]));
        }
    }
    if exists|i: int|
        0 <= i < monitor.targets.len() && !online.contains((#[trigger] monitor.targets[i]).id@) {
        let i = choose|i: int|
            0 <= i < monitor.targets.len() && !online.contains((#[trigger] monitor.targets[i]).id@);
        assert(ids[i] == monitor.targets[i].id@);
        assert(ids.to_set().contains(ids[i]));
        assert(!online.to_set().contains(ids[i]));
        let rest = ids.to_set().remove(ids[i]);
        assert(online.to_set().subset_of(rest));
        vstd::set_lib::lemma_len_subset(online.to_set(), rest);
    } else {
        assert(ids.to_set().subset_of(online.to_set())) by {
            assert forall|x: Seq<char>| #[trigger] ids.to_set().contains(x) implies online.to_set().contains(
                x,
            ) by {
                let i = choose|i: int| 0 <= i < ids.len() && ids[i] == x;
                assert(monitor.targets[i].id@ == x);
            }
        }
        vstd::set_lib::lemma_len_subset(ids.to_set(), online.to_set());
    }
}

proof fn unfinished_is_filtered(monitors: Seq<MonitorModel>, now: u64)
    ensures
        unfinished(monitors, now) == monitors.filter(
            |m: MonitorModel| now < m.deadline && m.online.len() < m.targets.len(),
        ),
    decreases monitors.len(),
{
    reveal(Seq::filter);
    if monitors.len() > 0 {
        unfinished_is_filtered(monitors.drop_last(), now);
    }
}

/// A watch goes on exactly until its deadline or until all of its hosts have been
/// seen; the others are left in order.
pub proof fn a_watch_goes_on_until_all_are_seen(
    monitors: Seq<MonitorModel>,
    monitor: MonitorModel,
    now: u64,
)
    ensures
        unfinished(monitors, now) == monitors.filter(
            |m: MonitorModel| now < m.deadline && m.online.len() < m.targets.len(),
        ),
        is_sound_watch(monitor) ==> (unfinished(monitors, now).contains(monitor)
            <==> monitors.contains(monitor) && now < monitor.deadline && exists|i: int|
            0 <= i < monitor.targets.len() && !monitor.online.contains(
                (#[trigger] monitor.targets[i]).id@,
            )),
{
    unfinished_is_filtered(monitors, now);
    filtered_has(
        monitors,
        |m: MonitorModel| now < m.deadline && m.online.len() < m.targets.len(),
        monitor,
    );
    if is_sound_watch(monitor) {
        fewer_seen_means_one_unseen(monitor);
    }
}

proof fn unseen_is_filtered(targets: Seq<HostEntry>, online: Seq<Seq<char>>)
    ensures
        unseen(targets, online) == targets.filter(|e: HostEntry| !online.contains(e.id@)),
    decreases targets.len(),
{
    reveal(Seq::filter);
    if targets.len() > 0 {
        unseen_is_filtered(targets.drop_last(), online);
    }
}

/// When a watch of the current attempt is due exactly its hosts that have not been
/// seen are probed, in order, and it is due again a second later. Before that none
/// is; a watch of another attempt probes none and is over.
pub proof fn a_due_watch_probes_what_is_unseen(
    monitor: MonitorModel,
    current: Option<u8>,
    now: u64,
    host: HostEntry,
)
    requires
        now <= crate::clock::CLOCK_END,
    ensures
        ({
            let after = monitor.ticked(current, now);
            let due = monitor.due(current, now);
            let runs = current == Some(monitor.attempt) && now >= monitor.next_probe;
            &&& due.contains(host) <==> runs && monitor.targets.contains(host)
                && !monitor.online.contains(host.id@)
            &&& runs ==> due == monitor.targets.filter(
                |e: HostEntry| !monitor.online.contains(e.id@),
            )
            &&& runs ==> after.next_probe == now + 1_000_000_000
            &&& !runs ==> due.len() == 0 && after.next_probe == monitor.next_probe
            &&& current == Some(monitor.attempt) ==> after.deadline == monitor.deadline
            &&& current != Some(monitor.attempt) ==> after.deadline == now
            &&& after.targets == monitor.targets
            &&& after.online == monitor.online
            &&& after.operation_id == monitor.operation_id
            &&& after.attempt == monitor.attempt
        }),
{
    unseen_is_filtered(monitor.targets, monitor.online);
    filtered_has(
        monitor.targets,
        |e: HostEntry| !monitor.online.contains(e.id@),
        host,
    );
    if !(current == Some(monitor.attempt) && now >= monitor.next_probe) {
        assert(!monitor.due(current, now).contains(host));
    }
}

proof fn unsuperseded_is_filtered(
    monitors: Seq<MonitorModel>,
    operation_id: [u8; 16],
    attempt: u8,
)
    ensures
        unsuperseded(monitors, operation_id, attempt) == monitors.filter(
            |m: MonitorModel| m.operation_id != operation_id || m.attempt >= attempt,
        ),
    decreases monitors.len(),
{
    reveal(Seq::filter);
    if monitors.len() > 0 {
        unsuperseded_is_filtered(monitors.drop_last(), operation_id, attempt);
    }
}

/// A new watch is taken up and ends exactly those of earlier attempts of its
/// operation; all others go on.
pub proof fn a_new_watch_ends_earlier_attempts(
    session: SessionModel,
    monitor: MonitorModel,
    other: MonitorModel,
)
    ensures
        session.watching(monitor).monitors.contains(other) <==> other == monitor || (
        session.monitors.contains(other) && (other.operation_id != monitor.operation_id
            || other.attempt >= monitor.attempt)),
        session.watching(monitor).monitors.last() == monitor,
        session.without_first(monitor.operation_id).monitors.contains(other)
            <==> session.monitors.contains(other) && (other.operation_id != monitor.operation_id
            || other.attempt >= 2),
        session.watching(monitor) == (SessionModel {
            monitors: session.watching(monitor).monitors,
            ..session
        }),
{
    let left = unsuperseded(session.monitors, monitor.operation_id, monitor.attempt);
    unsuperseded_is_filtered(session.monitors, monitor.operation_id, monitor.attempt);
    filtered_has(
        session.monitors,
        |m: MonitorModel|
            m.operation_id != monitor.operation_id || m.attempt >= monitor.attempt,
        other,
    );
    crate::policy::push_contains(left, monitor);
    unsuperseded_is_filtered(session.monitors, monitor.operation_id, 2);
    filtered_has(
        session.monitors,
        |m: MonitorModel| m.operation_id != monitor.operation_id || m.attempt >= 2,
        other,
    );
}

/// The next probe that is due is the first of all: none is due sooner, and one is
/// due then.
pub proof fn the_next_probe_is_the_first(monitors: Seq<MonitorModel>, now: u64, i: int)
    requires
        0 <= i < monitors.len(),
    ensures
        next_due(monitors, now) <= elapsed(now, monitors[i].next_probe),
        exists|k: int|
            0 <= k < monitors.len() && next_due(monitors, now) == elapsed(
                now,
                (#[trigger] monitors[k]).next_probe,
            ),
    decreases monitors.len(),
{
    let n = monitors.len() - 1;
    if monitors.len() == 1 {
        assert(monitors[0] == monitors.last());
    } else {
        let front = monitors.drop_last();
        if i < n {
            the_next_probe_is_the_first(front, now, i);
            assert(front[i] == monitors[i]);
        } else {
            the_next_probe_is_the_first(front, now, 0);
        }
        let k = choose|k: int|
            0 <= k < front.len() && next_due(front, now) == elapsed(
                now,
                (#[trigger] front[k]).next_probe,
            );
        assert(monitors[k] == front[k]);
        assert(monitors[n] == monitors.last());
    }
}

/// A session is over exactly after an hour, after five minutes without a word, or
/// after five seconds without its first word.
pub proof fn a_session_ends_in_time(session: SessionModel, now: u64)
    ensures
        session.is_over(now) <==> now >= session.started + 3_600_000_000_000 || now
            >= session.last_activity + 300_000_000_000 || (!session.key_confirmed && now
            >= session.started + 5_000_000_000),
{
}

/// A request is in time exactly if its time is set and differs from now by no more
/// than the skew, nor by more than a minute.
pub proof fn a_request_is_in_time(issued_at_ms: u64, now_ms: u64, skew: u64)
    ensures
        is_timely(issued_at_ms, now_ms, skew) <==> issued_at_ms != 0 && issued_at_ms <= now_ms
            + skew / 1_000_000 && now_ms <= issued_at_ms + skew / 1_000_000 && issued_at_ms
            <= now_ms + 60_000 && now_ms <= issued_at_ms + 60_000,
{
}

/// A new peer takes one place in every count, and nobody else one.
pub proof fn a_new_peer_takes_one_place(
    was: ServerRuntime,
    is: ServerRuntime,
    peer: IpAddress,
    other: IpAddress,
)
    ensures
        one_more(is, was, peer) && other != peer ==> {
            &&& is.metrics.connections.current == was.metrics.connections.current + 1
            &&& is.handshakes.current == was.handshakes.current + 1
            &&& held(is.ip_connections.active@, peer) == held(was.ip_connections.active@, peer) + 1
            &&& held(is.pending_handshakes.active@, peer) == held(
                was.pending_handshakes.active@,
                peer,
            ) + 1
            &&& held(is.ip_connections.active@, other) == held(was.ip_connections.active@, other)
            &&& held(is.pending_handshakes.active@, other) == held(
                was.pending_handshakes.active@,
                other,
            )
        },
        same_counts(is, was) ==> {
            &&& is.metrics.connections.current == was.metrics.connections.current
            &&& is.handshakes.current == was.handshakes.current
            &&& held(is.ip_connections.active@, peer) == held(was.ip_connections.active@, peer)
            &&& held(is.pending_handshakes.active@, peer) == held(
                was.pending_handshakes.active@,
                peer,
            )
        },
{
}

/// A message is let through exactly if it can be read, is valid and in time, comes
/// from a client that has shown or now shows that its greeting was fresh, is within
/// the rates of the client and its address, finds room for another watch if it is a
/// wake, and the client still has access; what it may use is what the policy says.
pub proof fn a_message_is_let_through_exactly_if_in_order(
    was: ServerRuntime,
    is: ServerRuntime,
    before: SessionModel,
    after: SessionModel,
    peer: IpAddress,
    payload_len: usize,
    parsed: Option<ClientEnvelope>,
    now: u64,
    now_ms: u64,
    r: MessageVerdict,
    host: Seq<char>,
)
    requires
        is_judgement(was, is, before, after, peer, payload_len, parsed, now, now_ms, r),
    ensures
        ({
            let nonce = ReplayKey { client_key: before.client_key, nonce: before.replay_nonce };
            let readable = 0 < payload_len <= 32_768 && parsed is Some;
            let valid = readable && parsed->0.fault() is None && is_timely(
                parsed->0.issued_at_ms,
                now_ms,
                was.snapshot.clock_skew,
            );
            let confirmed = before.key_confirmed || (was.replay_cache@.contains_key(nonce)
                && was.replay_cache@[nonce].expires > now);
            let rated = in_rate(was, quota_address(peer), before.client_key, now);
            let roomy = !(parsed->0.operation is Wake && before.monitors.len() >= 4);
            let access = access_of(was.policy.clients@, before.client_key);
            &&& r is Proceed <==> valid && confirmed && rated && roomy && access is Some
            &&& r is Proceed ==> (texts(r->Proceed_0@).contains(host) <==> access->0.contains(host))
            &&& r is RefuseUnread <==> 0 < payload_len <= 32_768 && parsed is None
            &&& readable && !valid ==> r == MessageVerdict::Refuse(ErrorCode::BadRequest, false)
            &&& valid && confirmed && !rated ==> r == MessageVerdict::Refuse(
                ErrorCode::RateLimited,
                true,
            )
            &&& valid && confirmed && rated && !roomy ==> r == MessageVerdict::Refuse(
                ErrorCode::Busy,
                true,
            )
            &&& after.last_activity == now
            &&& after.partial_since is None
            &&& after.key_confirmed == (before.key_confirmed || (valid && confirmed))
            &&& after.monitors == before.monitors
            &&& after.client_key == before.client_key
            &&& after.started == before.started
            &&& after.generation == before.generation
        }),
{
    if r is Proceed {
        assert(id_set(texts(r->Proceed_0@)).contains(host) == texts(r->Proceed_0@).contains(host));
    }
}

/// A request counts for the address and for the client, in a window of a minute,
/// and is within its rates exactly if both admit it.
pub proof fn a_request_counts_twice(
    runtime: ServerRuntime,
    peer: IpAddress,
    client_key: [u8; 32],
    now: u64,
)
    ensures
        ({
            let limit = runtime.snapshot.max_requests_per_minute;
            let first = after_allow(
                runtime.request_rates@,
                RateKey::Ip(peer),
                limit,
                60_000_000_000,
                now,
            );
            &&& counted(runtime, peer, client_key, now) == after_allow(
                first,
                RateKey::Client(client_key),
                limit,
                60_000_000_000,
                now,
            )
            &&& in_rate(runtime, peer, client_key, now) <==> admits(
                runtime.request_rates@,
                RateKey::Ip(peer),
                limit,
                60_000_000_000,
                now,
            ) && admits(first, RateKey::Client(client_key), limit, 60_000_000_000, now)
        }),
{
}

} // verus!
