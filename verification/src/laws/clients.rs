//! What a client asks, believes and tells.

use crate::cli::{
    marked, merged, receipted, CatalogModel, RowState, WakeNewsModel, WakeSessionModel,
};
use crate::client::{
    backoff, failure, first_batch, hear, hear_error, hear_hosts, hear_online, hear_receipt,
    hear_statuses, other_batches, sent_wake, usable, wake_refusal, ActorOutcome,
    ClientConnectionErrorCode, ClientModel, NewsModel, ReactionModel, RequestModel, StatusAsk,
};
use crate::config::{key_read, secret_read, AppConfig};
use crate::credential::{
    client_config_fault, credential_places, is_joined, is_runtime_of, ClientFault,
    ClientRuntimeConfig, CredentialBundle,
};
use crate::handshake::in_skew;
use crate::policy::id_set;
use crate::protocol::{is_id, EventModel, ReplyModel, ResultModel, StatusModel};
use crate::request::accepted_ids;
use crate::security::fingerprint_of;
use crate::snapshot::BindAddress;
use crate::text::trimmed;
use crate::wake::{Outcome, ProgressModel};
use vstd::prelude::*;

verus! {

/// After a failed attempt a client waits for 2, 5, 10, 20 and then always 30
/// seconds, and tells at which attempt it failed, how, and for how long it waits. A
/// connection that was lost counts as the first failure.
pub proof fn a_client_waits_longer_and_longer(attempt: u32, outcome: ActorOutcome)
    ensures
        attempt <= 1 ==> backoff(attempt) == 2,
        attempt == 2 ==> backoff(attempt) == 5,
        attempt == 3 ==> backoff(attempt) == 10,
        attempt == 4 ==> backoff(attempt) == 20,
        attempt >= 5 ==> backoff(attempt) == 30,
        failure(attempt, outcome) is None <==> outcome is Shutdown,
        !(outcome is Shutdown) ==> {
            let told = failure(attempt, outcome)->0;
            let counted = if outcome is Lost {
                1u32
            } else {
                attempt
            };
            &&& told is ConnectionFailed
            &&& told->ConnectionFailed_attempt == counted
            &&& told->retry_after == backoff(counted) * 1_000_000_000
            &&& outcome is ResolveFailed ==> told->code == ClientConnectionErrorCode::Resolve
            &&& outcome is ConnectFailed ==> told->code == ClientConnectionErrorCode::Connect
            &&& outcome is HandshakeFailed ==> told->code == ClientConnectionErrorCode::Handshake
            &&& outcome is Lost ==> told->code == outcome->Lost_0 && told->message
                == outcome->Lost_1@
        },
{
}

/// Of the addresses that a name stands for a client tries at most sixteen, each
/// once, and none that is unspecified or of a group; while there are fewer than
/// sixteen it tries every other one.
pub proof fn every_usable_address_is_tried(resolved: Seq<BindAddress>, address: BindAddress)
    ensures
        usable(resolved).len() <= 16,
        usable(resolved).no_duplicates(),
        usable(resolved).contains(address) ==> resolved.contains(address)
            && !address.ip@.is_unspecified() && !address.ip@.is_multicast(),
        resolved.contains(address) && !address.ip@.is_unspecified() && !address.ip@.is_multicast()
            && usable(resolved).len() < 16 ==> usable(resolved).contains(address),
        resolved.len() > 0 && !resolved[0].ip@.is_unspecified() && !resolved[0].ip@.is_multicast()
            ==> usable(resolved).len() > 0 && usable(resolved)[0] == resolved[0],
    decreases resolved.len(),
{
    if resolved.len() > 0 {
        let rest = resolved.drop_last();
        let front = usable(rest);
        let last = resolved.last();
        let all = usable(resolved);
        every_usable_address_is_tried(rest, address);
        every_usable_address_is_tried(rest, last);
        crate::policy::push_contains(front, last);
        if resolved.contains(address) {
            let i = choose|i: int| 0 <= i < resolved.len() && resolved[i] == address;
            if i < rest.len() {
                assert(rest[i] == address);
            }
        }
        if rest.contains(address) {
            let i = choose|i: int| 0 <= i < rest.len() && rest[i] == address;
            assert(resolved[i] == address);
        }
        assert(resolved[resolved.len() - 1] == last);
        if all.len() > front.len() {
            assert forall|i: int, j: int| 0 <= i < all.len() && 0 <= j < all.len() && i != j implies all[i]
                != all[j] by {
                if i < front.len() && j < front.len() {
                    assert(front[i] != front[j]);
                } else if i < front.len() {
                    assert(front[i] != last);
                } else {
                    assert(front[j] != last);
                }
            }
        }
        if rest.len() > 0 {
            assert(rest[0] == resolved[0]);
        }
    }
}

/// The hosts of a catalogue are asked for in batches of eight: the first batch and
/// the others are all of them, in order, and no batch is empty or larger.
pub proof fn hosts_are_asked_for_in_batches(ids: Seq<Seq<char>>)
    ensures
        first_batch(ids) + other_batches(ids) == ids,
        first_batch(ids).len() <= 8,
        ids.len() > 0 ==> first_batch(ids).len() > 0,
        other_batches(ids).len() > 0 ==> first_batch(ids).len() == 8,
{
    assert(first_batch(ids) + other_batches(ids) =~= ids);
}

/// A catalogue that was asked for is told, its request is over, and the states of
/// its first hosts are asked for; one without hosts has no states.
pub proof fn an_asked_catalogue_is_told(
    state: ClientModel,
    request_id: [u8; 16],
    catalog_version: u64,
    hosts: Seq<Seq<char>>,
    fresh: [u8; 16],
)
    requires
        state.requests.dom().finite(),
    ensures
        ({
            let (reaction, after) = hear_hosts(state, request_id, catalog_version, hosts, fresh);
            let asked = state.requests.contains_key(request_id) && state.requests[request_id] is
                List;
            let told = NewsModel::Hosts { catalog_version, hosts };
            let room = state.requests.remove(request_id).len() < 16;
            &&& reaction is Reject <==> !asked
            &&& asked && hosts.len() == 0 ==> reaction == ReactionModel::Go(
                seq![told, NewsModel::Statuses { catalog_version, statuses: Seq::empty() }],
                None,
            )
            &&& asked && hosts.len() > 0 && room ==> reaction == ReactionModel::Go(
                seq![told],
                Some(StatusAsk { catalog_version, ids: first_batch(hosts) }),
            ) && after.requests.contains_key(fresh) && after.requests[fresh]
                == (RequestModel::Statuses {
                catalog_version,
                hosts: id_set(first_batch(hosts)),
                remaining: other_batches(hosts),
            })
            &&& asked && hosts.len() > 0 && !room ==> reaction is Fail
            &&& after.pending == state.pending
            &&& request_id != fresh ==> !after.requests.contains_key(request_id)
        }),
{
}

/// States are believed exactly if they were asked for, of that catalogue and of
/// exactly those hosts; they are told, and the next hosts are asked for until none
/// is left.
pub proof fn asked_states_are_told(
    state: ClientModel,
    request_id: [u8; 16],
    catalog_version: u64,
    statuses: Seq<StatusModel>,
    fresh: [u8; 16],
    host: Seq<char>,
)
    requires
        state.requests.dom().finite(),
    ensures
        ({
            let (reaction, after) = hear_statuses(
                state,
                request_id,
                catalog_version,
                statuses,
                fresh,
            );
            let request = state.requests[request_id];
            let asked = state.requests.contains_key(request_id) && request is Statuses
                && request->Statuses_catalog_version == catalog_version && request->hosts == id_set(
                crate::client::status_ids(statuses),
            );
            let told = NewsModel::Statuses { catalog_version, statuses };
            let room = state.requests.remove(request_id).len() < 16;
            &&& reaction is Reject <==> !asked
            &&& id_set(crate::client::status_ids(statuses)).contains(host) <==> exists|i: int|
                0 <= i < statuses.len() && (#[trigger] statuses[i]).host_id == host
            &&& asked && request->remaining.len() == 0 ==> reaction == ReactionModel::Go(
                seq![told],
                None,
            )
            &&& asked && request->remaining.len() > 0 && room ==> reaction == ReactionModel::Go(
                seq![told],
                Some(StatusAsk { catalog_version, ids: first_batch(request->remaining) }),
            )
            &&& asked && request->remaining.len() > 0 && !room ==> reaction == ReactionModel::Fail(
                seq![told],
            )
            &&& after.pending == state.pending
        }),
{
    let ids = crate::client::status_ids(statuses);
    if ids.contains(host) {
        let i = choose|i: int| 0 <= i < ids.len() && ids[i] == host;
        assert(statuses[i].host_id == host);
    }
    if exists|i: int| 0 <= i < statuses.len() && (#[trigger] statuses[i]).host_id == host {
        let i = choose|i: int| 0 <= i < statuses.len() && (#[trigger] statuses[i]).host_id == host;
        assert(ids[i] == host);
    }
}

proof fn accepted_are(results: Seq<ResultModel>, id: Seq<char>)
    ensures
        accepted_ids(results).contains(id) <==> exists|i: int|
            0 <= i < results.len() && (#[trigger] results[i]).accepted && results[i].host_id == id,
{
    crate::laws::wakes::a_wake_makes_progress(ProgressModel::begun(0), results, 0, id, id);
}

/// A receipt is believed exactly if it answers a wake under way, in its attempt,
/// with its ticket if that is the second, with a deadline about a minute ahead at
/// most, and for exactly its hosts; it is told once, and what it accepted is kept.
pub proof fn a_receipt_is_believed_exactly_if_it_fits(
    state: ClientModel,
    operation_id: [u8; 16],
    attempt: u8,
    ticket: [u8; 32],
    deadline_ms: u64,
    results: Seq<ResultModel>,
    now_ms: u64,
    host: Seq<char>,
)
    requires
        now_ms + 200_000_000 < u64::MAX,
        state.clock_skew <= 60_000_000_000,
    ensures
        ({
            let (reaction, after) = hear_receipt(
                state,
                operation_id,
                operation_id,
                attempt,
                ticket,
                deadline_ms,
                results,
                now_ms,
            );
            let operation = state.pending[operation_id];
            let skew_ms = state.clock_skew as int / 1_000_000;
            let fits = state.pending.contains_key(operation_id) && attempt == operation.attempt && (
            attempt == 2 ==> operation.ticket == Some(ticket)) && now_ms <= deadline_ms + skew_ms
                && deadline_ms <= now_ms + 60_000 + skew_ms && id_set(
                crate::client::result_ids(results),
            ) == operation.targets;
            let told = NewsModel::CommandExecuted {
                operation_id,
                attempt,
                retry_ticket: ticket,
                deadline_ms,
                results,
            };
            &&& reaction is Reject <==> !fits
            &&& !fits ==> after == state
            &&& fits && !operation.receipt_seen ==> {
                let kept = after.pending[operation_id];
                &&& reaction == ReactionModel::Go(seq![told], None)
                &&& kept.receipt_seen
                &&& kept.deadline_ms == Some(deadline_ms)
                &&& kept.accepted is Some
                &&& kept.accepted->0.contains(host) <==> exists|i: int|
                    0 <= i < results.len() && (#[trigger] results[i]).accepted
                        && results[i].host_id == host
                &&& attempt == 1 ==> kept.ticket == Some(ticket)
                &&& kept.targets == operation.targets && kept.online == operation.online
                    && kept.attempt == operation.attempt
            }
            &&& fits && operation.receipt_seen ==> reaction == ReactionModel::Go(Seq::empty(), None)
        }),
{
    accepted_are(results, host);
}

/// A sighting is believed exactly if it belongs to a wake under way whose receipt
/// accepted the host, in its attempt, and its time is set, lies in the minute before
/// now and not after the deadline, but for the skew; it is told the first time.
pub proof fn a_sighting_is_believed_exactly_if_it_fits(
    state: ClientModel,
    operation_id: [u8; 16],
    attempt: u8,
    host: Seq<char>,
    observed_at_ms: u64,
    now_ms: u64,
)
    requires
        200_000_000 < now_ms,
        now_ms + 200_000_000 < u64::MAX,
        state.clock_skew <= 60_000_000_000,
        state.pending.contains_key(operation_id) && state.pending[operation_id].deadline_ms is Some
            ==> state.pending[operation_id].deadline_ms->0 + 200_000_000 < u64::MAX,
    ensures
        ({
            let (reaction, after) = hear_online(
                state,
                operation_id,
                operation_id,
                attempt,
                host,
                observed_at_ms,
                now_ms,
            );
            let operation = state.pending[operation_id];
            let skew_ms = state.clock_skew as int / 1_000_000;
            let fits = state.pending.contains_key(operation_id) && attempt == operation.attempt
                && operation.receipt_seen && operation.accepted is Some
                && operation.accepted->0.contains(host) && operation.deadline_ms is Some
                && observed_at_ms != 0 && observed_at_ms <= now_ms + skew_ms && now_ms
                <= observed_at_ms + 60_000 + skew_ms && observed_at_ms <= operation.deadline_ms->0
                && now_ms <= operation.deadline_ms->0 + skew_ms;
            &&& reaction is Reject <==> !fits
            &&& !fits ==> after == state
            &&& fits && !operation.online.contains(host) ==> reaction == ReactionModel::Go(
                seq![NewsModel::TargetOnline { operation_id, attempt, host_id: host }],
                None,
            ) && after.pending[operation_id].online == operation.online.insert(host)
            &&& fits && operation.online.contains(host) ==> reaction == ReactionModel::Go(
                Seq::empty(),
                None,
            )
        }),
{
}

/// A message is heard exactly if it carries the headers of the connection and its
/// time is near enough; an error is told to whoever asked.
pub proof fn a_message_is_heard_exactly_if_it_belongs(
    state: ClientModel,
    message: ReplyModel,
    fresh: [u8; 16],
    now_ms: u64,
)
    ensures
        ({
            let (reaction, after) = hear(state, message, fresh, now_ms);
            let belongs = message.headers == state.headers && in_skew(
                message.issued_at_ms,
                now_ms,
                state.clock_skew,
            );
            let id = message.request_id;
            &&& !belongs ==> reaction is Reject && after == state
            &&& belongs ==> (reaction, after) == match message.event {
                EventModel::Hosts { catalog_version, hosts } => hear_hosts(
                    state,
                    id,
                    catalog_version,
                    hosts,
                    fresh,
                ),
                EventModel::Statuses { catalog_version, statuses } => hear_statuses(
                    state,
                    id,
                    catalog_version,
                    statuses,
                    fresh,
                ),
                EventModel::CommandExecuted {
                    operation_id,
                    attempt,
                    retry_ticket,
                    deadline_ms,
                    results,
                } => hear_receipt(
                    state,
                    id,
                    operation_id,
                    attempt,
                    retry_ticket,
                    deadline_ms,
                    results,
                    now_ms,
                ),
                EventModel::TargetOnline { operation_id, attempt, host_id, observed_at_ms } =>
                    hear_online(state, id, operation_id, attempt, host_id, observed_at_ms, now_ms),
                EventModel::Error { code, retryable } => hear_error(state, id, code, retryable),
            }
            &&& belongs && message.event is Error ==> {
                let asked = state.requests.contains_key(id) || state.pending.contains_key(id);
                &&& reaction is Reject <==> !asked
                &&& asked ==> reaction is Go && (reaction->Go_0).len() == 1 && (reaction->Go_0)[0] is
                    Error && reaction->Go_1 is None && !after.requests.contains_key(id)
                    && after.pending == state.pending
            }
        }),
{
}

/// A wake is sent exactly if it has 1 to 64 hosts and an identifier, fewer than 32
/// others are under way, and it is no step back behind what was already sent or
/// answered; what is kept of it is what was sent, for three minutes.
pub proof fn a_wake_is_sent_exactly_if_in_order(
    state: ClientModel,
    targets: nat,
    operation_id: [u8; 16],
    attempt: u8,
    hosts: Set<Seq<char>>,
    ticket: Option<[u8; 32]>,
    now: u64,
)
    requires
        now <= crate::clock::CLOCK_END,
    ensures
        ({
            let known = state.pending.contains_key(operation_id);
            let last = state.pending[operation_id];
            let sent = sent_wake(hosts, attempt, ticket, now);
            &&& wake_refusal(state, targets, operation_id, attempt) is None <==> 1 <= targets <= 64
                && !crate::octets::is_zero(operation_id@) && (known || state.pending.len() < 32)
                && (known ==> attempt > last.attempt || (attempt == last.attempt
                && !last.receipt_seen))
            &&& sent.targets == hosts && sent.attempt == attempt && sent.ticket == ticket
            &&& sent.accepted is None && !sent.receipt_seen && sent.deadline_ms is None
            &&& forall|h: Seq<char>| !sent.online.contains(h)
            &&& sent.expires_at == now + 180_000_000_000
        }),
{
}

/// The mark of a host is set in its rows and in no other.
proof fn receipted_is(
    targets: Seq<Seq<char>>,
    rows: Seq<RowState>,
    results: Seq<ResultModel>,
    i: int,
)
    requires
        0 <= i < rows.len(),
        targets.len() == rows.len(),
    ensures
        receipted(targets, rows, results).len() == rows.len(),
        (forall|k: int| 0 <= k < results.len() ==> (#[trigger] results[k]).host_id != targets[i])
            ==> receipted(targets, rows, results)[i] == rows[i],
        forall|k: int|
            #![trigger results[k]]
            0 <= k < results.len() && results[k].host_id == targets[i] && (forall|j: int|
                k < j < results.len() ==> (#[trigger] results[j]).host_id != targets[i])
                ==> receipted(targets, rows, results)[i] == if results[k].accepted {
                RowState::Sent
            } else {
                RowState::Rejected
            },
    decreases results.len(),
{
    if results.len() > 0 {
        let front = results.drop_last();
        let n = results.len() - 1;
        receipted_is(targets, rows, front, i);
        assert(results[n] == results.last());
        if results.last().host_id != targets[i] {
            if forall|k: int|
                0 <= k < results.len() ==> (#[trigger] results[k]).host_id != targets[i] {
                assert forall|k: int| 0 <= k < front.len() implies (#[trigger] front[k]).host_id
                    != targets[i] by {
                    assert(front[k] == results[k]);
                }
            }
            assert forall|k: int|
                #![trigger results[k]]
                0 <= k < results.len() && results[k].host_id == targets[i] && (forall|j: int|
                    k < j < results.len() ==> (#[trigger] results[j]).host_id != targets[i]) implies receipted(
                targets,
                rows,
                results,
            )[i] == if results[k].accepted {
                RowState::Sent
            } else {
                RowState::Rejected
            } by {
                assert(front[k] == results[k]);
                assert forall|j: int| k < j < front.len() implies (#[trigger] front[j]).host_id
                    != targets[i] by {
                    assert(front[j] == results[j]);
                }
            }
        } else {
            assert forall|k: int|
                #![trigger results[k]]
                0 <= k < results.len() && results[k].host_id == targets[i] && (forall|j: int|
                    k < j < results.len() ==> (#[trigger] results[j]).host_id != targets[i]) implies receipted(
                targets,
                rows,
                results,
            )[i] == if results[k].accepted {
                RowState::Sent
            } else {
                RowState::Rejected
            } by {
                if k < n {
                    assert(results[n].host_id != targets[i]);
                }
            }
        }
    }
}

/// On the command line the row of a host shows what the receipt says of it, and
/// stays where the receipt says nothing; a host that was seen shows as online; all
/// others stay.
pub proof fn a_row_shows_what_came_of_its_host(
    targets: Seq<Seq<char>>,
    rows: Seq<RowState>,
    results: Seq<ResultModel>,
    host: Seq<char>,
    i: int,
    k: int,
)
    requires
        0 <= i < rows.len(),
        targets.len() == rows.len(),
    ensures
        marked(targets, rows, host, RowState::Online).len() == rows.len(),
        marked(targets, rows, host, RowState::Online)[i] == if targets[i] == host {
            RowState::Online
        } else {
            rows[i]
        },
        receipted(targets, rows, results).len() == rows.len(),
        (forall|k: int| 0 <= k < results.len() ==> (#[trigger] results[k]).host_id != targets[i])
            ==> receipted(targets, rows, results)[i] == rows[i],
        0 <= k < results.len() && results[k].host_id == targets[i] && (forall|j: int|
            k < j < results.len() ==> (#[trigger] results[j]).host_id != targets[i])
            ==> receipted(targets, rows, results)[i] == if results[k].accepted {
            RowState::Sent
        } else {
            RowState::Rejected
        },
{
    receipted_is(targets, rows, results, i);
}

/// A wake on the command line listens to its own receipt and sightings and to no
/// others; it fails where the server refuses every host, disconnects or cannot be
/// reached, and shows the errors of the server.
pub proof fn a_wake_listens_to_its_own_news(
    session: WakeSessionModel,
    event: NewsModel,
    now: u64,
)
    ensures
        ({
            let (news, after) = session.hears(event, now);
            let own = match event {
                NewsModel::CommandExecuted { operation_id, attempt, .. } => operation_id
                    == session.operation_id && attempt == session.attempt,
                NewsModel::TargetOnline { operation_id, attempt, host_id } => operation_id
                    == session.operation_id && attempt == session.attempt
                    && session.progress.accepted.contains(host_id),
                _ => false,
            };
            &&& !own ==> after == session
            &&& own && event is CommandExecuted ==> after.receipt && after.ticket == Some(
                event->retry_ticket,
            ) && after.progress == session.progress.received(event->results, now) && (news is Fail
                <==> forall|h: Seq<char>| !after.progress.accepted.contains(h))
            &&& own && event is TargetOnline ==> news is Nothing && after.progress
                == session.progress.observed(event->host_id) && after.rows == marked(
                session.targets,
                session.rows,
                event->host_id,
                RowState::Online,
            )
            &&& event is Disconnected || event is ConnectionFailed ==> news is Fail
            &&& event is Error ==> news == WakeNewsModel::Note(event->Error_0)
            &&& after.targets == session.targets && after.attempt == session.attempt
                && after.operation_id == session.operation_id && after.boot_nonce
                == session.boot_nonce && after.catalog_version == session.catalog_version
        }),
{
    if event is CommandExecuted {
        let after = session.progress.received(event->results, now);
        if forall|h: Seq<char>| !after.accepted.contains(h) {
            assert(after.accepted =~= Set::<Seq<char>>::empty());
        }
    }
}

/// A wake on the command line fails exactly if some of its hosts were refused and
/// the others seen, if its receipt does not come, or if its minute is over without a
/// ticket or for the second time.
pub proof fn a_wake_fails_in_time(session: WakeSessionModel, now: u64)
    ensures
        session.failed(now) is Some <==> session.progress.outcome(id_set(session.targets))
            == Outcome::Partial || (!session.receipt && now >= session.receipt_deadline) || (
        session.receipt && now >= session.progress.deadline && (session.attempt != 1
            || session.ticket is None)),
        now <= crate::clock::CLOCK_END ==> {
            let after = session.retried(now);
            &&& after.attempt == 2 && !after.receipt && after.ticket == session.ticket
            &&& after.progress == ProgressModel::begun(now)
            &&& after.receipt_deadline == now + 15_000_000_000
            &&& after.targets == session.targets && after.operation_id == session.operation_id
                && after.boot_nonce == session.boot_nonce && after.catalog_version
                == session.catalog_version
            &&& after.rows.len() == session.rows.len() && forall|i: int|
                0 <= i < after.rows.len() ==> #[trigger] after.rows[i] == RowState::Retrying
        },
{
}

/// A state that comes is known from then on and takes the place of the one before
/// it; the others stay.
pub proof fn a_new_state_replaces_the_old(
    known: Seq<StatusModel>,
    status: StatusModel,
    other: StatusModel,
)
    ensures
        ({
            let after = crate::cli::replaced(known, status);
            &&& after.contains(status)
            &&& other.host_id != status.host_id ==> (after.contains(other) <==> known.contains(
                other,
            ))
            &&& other.host_id == status.host_id && after.contains(other) ==> other == status
            &&& after.len() == if exists|i: int|
                0 <= i < known.len() && (#[trigger] known[i]).host_id == status.host_id {
                known.len()
            } else {
                known.len() + 1
            }
        }),
{
    let after = crate::cli::replaced(known, status);
    if exists|i: int| 0 <= i < known.len() && (#[trigger] known[i]).host_id == status.host_id {
        let i = choose|i: int|
            0 <= i < known.len() && (#[trigger] known[i]).host_id == status.host_id;
        assert(after[i] == status);
    } else {
        assert(after[known.len() as int] == status);
    }
    if after.contains(other) {
        let i = choose|i: int| 0 <= i < after.len() && after[i] == other;
        if i < known.len() && other.host_id != status.host_id {
            assert(known[i] == other);
        }
    }
    if known.contains(other) && other.host_id != status.host_id {
        let i = choose|i: int| 0 <= i < known.len() && known[i] == other;
        assert(after[i] == other);
    }
}

/// States that come one after another are taken in one after another.
pub proof fn states_are_taken_in_one_by_one(
    known: Seq<StatusModel>,
    news: Seq<StatusModel>,
    status: StatusModel,
)
    ensures
        merged(known, Seq::empty()) == known,
        merged(known, news.push(status)) == crate::cli::replaced(merged(known, news), status),
{
    assert(news.push(status).drop_last() =~= news);
}

/// The catalogue is whole exactly once it is there and a state has come for each of
/// its hosts; a catalogue, states and errors are kept as they come, and the wait ends
/// with the connection.
pub proof fn a_catalogue_is_waited_for(wait: CatalogModel, event: NewsModel)
    ensures
        wait.is_whole() <==> wait.catalog is Some && wait.statuses.len() >= (wait.catalog->0).0.len(),
        wait.hears(event) is None <==> event is Disconnected,
        event is Hosts ==> wait.hears(event)->0.catalog == Some(
            (event->Hosts_hosts, event->Hosts_catalog_version),
        ) && wait.hears(event)->0.statuses == wait.statuses,
        event is Statuses ==> wait.hears(event)->0.statuses == merged(
            wait.statuses,
            event->statuses,
        ) && wait.hears(event)->0.catalog == wait.catalog,
        event is Error ==> wait.hears(event)->0.error == Some(event->Error_0),
        event is ConnectionFailed ==> wait.hears(event)->0.error is Some,
        !(event is Disconnected) ==> wait.hears(event)->0.deadline == wait.deadline,
{
}

/// The places of credentials among names are those of exactly the names that end
/// like one, in order.
pub proof fn credentials_are_found_by_their_names(names: Seq<Seq<char>>, i: int)
    ensures
        credential_places(names).contains(i) <==> 0 <= i < names.len()
            && ".credential.toml"@.is_suffix_of(names[i]),
        credential_places(names).no_duplicates(),
    decreases names.len(),
{
    if names.len() > 0 {
        let front = names.drop_last();
        let some = credential_places(front);
        let n = names.len() - 1;
        credentials_are_found_by_their_names(front, i);
        credentials_are_found_by_their_names(front, n);
        crate::policy::push_contains(some, n as int);
        if 0 <= i < n {
            assert(front[i] == names[i]);
        }
        assert(!some.contains(n as int));
        let all = credential_places(names);
        if all.len() > some.len() {
            assert forall|a: int, b: int| 0 <= a < all.len() && 0 <= b < all.len() && a != b implies all[a]
                != all[b] by {
                if a < some.len() && b < some.len() {
                    assert(some[a] != some[b]);
                } else if a < some.len() {
                    assert(some.contains(some[a]));
                } else {
                    assert(some.contains(some[b]));
                }
            }
        }
    }
}

/// A credential is valid exactly if it is of this version, its keys belong together,
/// its identifier is the digest of its key, and its pin, its secret, its label and
/// its headers can be used.
pub proof fn a_credential_is_valid_exactly_if_its_parts_are(bundle: CredentialBundle)
    ensures
        bundle.is_valid() <==> {
            let private = key_read(bundle.static_private_key@);
            let public = key_read(bundle.static_public_key@);
            &&& bundle.version == 1
            &&& is_id(bundle.client_id@)
            &&& crate::text::byte_count(bundle.device_label@) <= 128
            &&& !crate::config::has_control(bundle.device_label@)
            &&& private is Ok
            &&& public is Ok
            &&& public->Ok_0 == crate::crypto::x25519_public(private->Ok_0)
            &&& bundle.client_id@ == fingerprint_of(public->Ok_0)
            &&& key_read(bundle.pinned_server_static_key@) is Ok
            &&& secret_read(bundle.shared_secret@) is Ok
            &&& crate::config::headers_fault(
                crate::protocol::header_models(bundle.custom_headers@),
            ) is None
            &&& crate::config::pair_fault(
                bundle.static_private_key@,
                bundle.static_public_key@,
                "client"@,
            ) is None
        },
{
}

/// A client runs with its settings exactly if they are valid, its keys belong
/// together, it has a pin and an address, and its headers can be sent; it is told in
/// that order what is missing.
pub proof fn a_client_runs_exactly_if_equipped(config: AppConfig)
    requires
        config.fault() is None,
    ensures
        ({
            let private = key_read(config.client.static_private_key@);
            let public = key_read(config.client.static_public_key@);
            let keyed = private is Ok && public is Ok && public->Ok_0
                == crate::crypto::x25519_public(private->Ok_0);
            let pinned = key_read(config.client.pinned_server_static_key@) is Ok;
            let placed = trimmed(config.client.address@).len() > 0;
            &&& client_config_fault(config) is None ==> keyed && pinned && placed
            &&& !keyed ==> client_config_fault(config) == Some(
                ClientFault::Security(crate::security::SecurityError::Identity),
            )
            &&& keyed && !pinned ==> client_config_fault(config) == Some(
                ClientFault::Security(crate::security::SecurityError::PinRequired),
            )
            &&& keyed && pinned && !placed ==> client_config_fault(config) == Some(
                ClientFault::Endpoint,
            )
            &&& keyed && pinned && placed && crate::protocol::headers_fault(
                crate::protocol::header_models(config.security.custom_headers@),
            ) is None ==> client_config_fault(config) is None
        }),
{
    let headers = crate::protocol::header_models(config.security.custom_headers@);
    crate::laws::settings::settings_are_valid_exactly_if_each_part_is(config);
    crate::laws::settings::limits_are_valid_exactly_if_each_is(config.security);
}

/// A client reaches the address and the port that were set, with the keys, the
/// secret and the pin of its credential.
pub proof fn a_client_runs_with_its_credential(
    runtime: ClientRuntimeConfig,
    out: AppConfig,
    config: AppConfig,
    bundle: CredentialBundle,
    address: Option<String>,
    port: Option<u16>,
    label: Option<Seq<char>>,
)
    requires
        is_joined(out, config, bundle, address, port),
        is_runtime_of(runtime, out, label),
    ensures
        runtime.address@ == trimmed(
            if address is Some {
                address->0@
            } else {
                config.client.address@
            },
        ),
        runtime.port == if port is Some {
            port->0
        } else {
            config.client.port
        },
        key_read(bundle.static_private_key@) == Ok::<Seq<u8>, Seq<char>>(runtime.identity.private@),
        key_read(bundle.static_public_key@) == Ok::<Seq<u8>, Seq<char>>(runtime.identity.public@),
        key_read(bundle.pinned_server_static_key@) == Ok::<Seq<u8>, Seq<char>>(
            runtime.pinned_server_key@,
        ),
        secret_read(bundle.shared_secret@) == Ok::<Seq<u8>, Seq<char>>(runtime.psk@),
        runtime.client_id@ == fingerprint_of(runtime.identity.public@),
        runtime.clock_skew == config.security.clock_skew_seconds * 1_000_000_000,
{
}

} // verus!
