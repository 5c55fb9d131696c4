//! What a server answers: catalogues, states, wakes and their receipts.

use crate::clock::CLOCK_END;
use crate::laws::lists::{filtered_has, kept_in_order};
use crate::ledger::{
    after_complete, after_first, after_request, first_verdict, first_wake, has_room, in_use, live,
    request_verdict, retried, ticket_of, EntryModel, OperationKey,
};
use crate::limits::{cooling, none_cooling, TargetModel};
use crate::protocol::{
    header_models, summary_models, ClientOperation, ErrorCode, EventModel, HostState, ReplyModel,
    ResultModel, WakeErrorCode,
};
use crate::request::{
    accepted_ids, answer, digest_of, entries_in, entries_named, hosts_refusal, list_step,
    new_monitor, observed, receipt, recorded, request_step, results_of, resumed_monitor,
    retry_verdict, sent_to, status_step, targets_refusal, too_soon, visible, wake_step, BooksModel,
    Call, StepModel, WakeOutcome,
};
use crate::snapshot::{entry_ids, HostEntry, Snapshot};
use crate::text::{sorted_texts, sorted_texts_hold_the_same, texts};
use vstd::prelude::*;

verus! {

proof fn visible_is_filtered(catalogue: Seq<Seq<char>>, allowed: Seq<Seq<char>>)
    ensures
        visible(catalogue, allowed) == catalogue.filter(|id: Seq<char>| allowed.contains(id)),
    decreases catalogue.len(),
{
    reveal(Seq::filter);
    if catalogue.len() > 0 {
        visible_is_filtered(catalogue.drop_last(), allowed);
    }
}

/// A client is shown exactly the hosts of the catalogue that it may use, in the
/// order of the catalogue.
pub proof fn a_client_sees_all_its_hosts(
    catalogue: Seq<Seq<char>>,
    allowed: Seq<Seq<char>>,
    id: Seq<char>,
)
    ensures
        visible(catalogue, allowed).contains(id) <==> catalogue.contains(id) && allowed.contains(
            id,
        ),
        visible(catalogue, allowed) == catalogue.filter(|id: Seq<char>| allowed.contains(id)),
        (forall|i: int| 0 <= i < catalogue.len() ==> allowed.contains(#[trigger] catalogue[i]))
            ==> visible(catalogue, allowed) == catalogue,
{
    visible_is_filtered(catalogue, allowed);
    let may = |id: Seq<char>| allowed.contains(id);
    filtered_has(catalogue, may, id);
    if forall|i: int| 0 <= i < catalogue.len() ==> allowed.contains(#[trigger] catalogue[i]) {
        kept_in_order(catalogue, may);
    }
}

/// A request for the catalogue that is new, and for which there is room, is
/// answered with all the hosts that the client may use.
pub proof fn a_new_list_request_is_answered(
    snapshot: Snapshot,
    books: BooksModel,
    call: Call,
    fresh: [u8; 32],
    id: Seq<char>,
)
    requires
        snapshot.wf(),
        call.headers == header_models(snapshot.headers@),
        !live(books.entries, call.now).contains_key(call.key()),
        has_room(live(books.entries, call.now), call.client_key),
        !crate::octets::is_zero(call.request_id@),
        call.now_ms != 0,
    ensures
        ({
            let step = request_step(snapshot, books, call, ClientOperation::ListHosts, fresh).0;
            &&& step is Reply
            &&& step->Reply_1 is None
            &&& step->Reply_0.request_id == call.request_id
            &&& step->Reply_0.issued_at_ms == call.now_ms
            &&& step->Reply_0.headers == call.headers
            &&& step->Reply_0.event is Hosts
            &&& step->Reply_0.event->Hosts_catalog_version == snapshot.catalog_version
            &&& step->Reply_0.event->hosts.contains(id) <==> entry_ids(snapshot.hosts@).contains(id)
                && call.allowed.contains(id)
            &&& step->Reply_0.event->hosts == sorted_texts(entry_ids(snapshot.hosts@)).filter(
                |id: Seq<char>| call.allowed.contains(id),
            )
        }),
{
    let catalogue = summary_models(snapshot.summaries@);
    a_client_sees_all_its_hosts(catalogue, call.allowed, id);
    sorted_texts_hold_the_same(entry_ids(snapshot.hosts@));
    crate::request::a_catalogue_is_always_valid(
        snapshot,
        call.allowed,
        call.request_id,
        call.now_ms,
    );
}

/// The host at a place of a request may be used.
spec fn is_usable(
    allowed: Seq<Seq<char>>,
    known: Seq<Seq<char>>,
    ids: Seq<Seq<char>>,
    i: int,
) -> bool {
    allowed.contains(ids[i]) && known.contains(ids[i]) && forall|j: int|
        0 <= j < i ==> #[trigger] ids[j] != ids[i]
}

#[verifier::spinoff_prover]
proof fn the_rest_is_usable(
    allowed: Seq<Seq<char>>,
    known: Seq<Seq<char>>,
    ids: Seq<Seq<char>>,
    k: int,
)
    requires
        0 <= k <= ids.len(),
    ensures
        hosts_refusal(allowed, known, ids, k) is None <==> forall|i: int|
            k <= i < ids.len() ==> #[trigger] is_usable(allowed, known, ids, i),
    decreases ids.len() - k,
{
    if k < ids.len() {
        the_rest_is_usable(allowed, known, ids, k + 1);
        if ids.take(k).contains(ids[k]) {
            let j = choose|j: int| 0 <= j < k && ids.take(k)[j] == ids[k];
            assert(ids[j] == ids[k]);
            assert(!is_usable(allowed, known, ids, k));
        } else {
            assert forall|j: int| 0 <= j < k implies #[trigger] ids[j] != ids[k] by {
                assert(ids.take(k)[j] == ids[j]);
            }
        }
        assert(hosts_refusal(allowed, known, ids, k) is None ==> is_usable(allowed, known, ids, k));
        if hosts_refusal(allowed, known, ids, k) is None {
            assert forall|i: int| k <= i < ids.len() implies #[trigger] is_usable(
                allowed,
                known,
                ids,
                i,
            ) by {
                if i > k {
                    assert(hosts_refusal(allowed, known, ids, k + 1) is None);
                }
            }
        } else if is_usable(allowed, known, ids, k) {
            assert(hosts_refusal(allowed, known, ids, k + 1) is Some);
            let i = choose|i: int| k + 1 <= i < ids.len() && !is_usable(allowed, known, ids, i);
            assert(!is_usable(allowed, known, ids, i));
        }
    }
}

/// The hosts of a request are accepted exactly if there are some, not too many,
/// each named once, each configured, and each one that the client may use.
pub proof fn hosts_are_accepted_exactly_if_usable(
    snapshot: Snapshot,
    allowed: Seq<Seq<char>>,
    ids: Seq<Seq<char>>,
    maximum: nat,
)
    ensures
        targets_refusal(snapshot, allowed, ids, maximum) is None <==> {
            &&& 0 < ids.len() <= maximum
            &&& ids.no_duplicates()
            &&& forall|i: int|
                0 <= i < ids.len() ==> allowed.contains(#[trigger] ids[i]) && entry_ids(
                    snapshot.hosts@,
                ).contains(ids[i])
        },
        ids.len() == 0 || ids.len() > maximum ==> targets_refusal(snapshot, allowed, ids, maximum)
            == Some(ErrorCode::BadRequest),
        0 < ids.len() <= maximum && !allowed.contains(ids[0]) ==> targets_refusal(
            snapshot,
            allowed,
            ids,
            maximum,
        ) == Some(ErrorCode::Unauthorized),
{
    let known = entry_ids(snapshot.hosts@);
    the_rest_is_usable(allowed, known, ids, 0);
    if targets_refusal(snapshot, allowed, ids, maximum) is None {
        assert forall|i: int, j: int| 0 <= i < ids.len() && 0 <= j < ids.len() && i != j implies ids[i]
            != ids[j] by {
            assert(is_usable(allowed, known, ids, i) && is_usable(allowed, known, ids, j));
            if i < j {
                assert(ids[i] != ids[j]);
            }
        }
        assert forall|i: int| 0 <= i < ids.len() implies allowed.contains(#[trigger] ids[i])
            && known.contains(ids[i]) by {
            assert(is_usable(allowed, known, ids, i));
        }
    } else if 0 < ids.len() <= maximum && ids.no_duplicates() && (forall|i: int|
        0 <= i < ids.len() ==> allowed.contains(#[trigger] ids[i]) && known.contains(ids[i])) {
        assert forall|i: int| 0 <= i < ids.len() implies #[trigger] is_usable(
            allowed,
            known,
            ids,
            i,
        ) by {
            assert(allowed.contains(ids[i]));
        }
    }
}

proof fn a_refusal_is_the_first_fault(
    allowed: Seq<Seq<char>>,
    known: Seq<Seq<char>>,
    ids: Seq<Seq<char>>,
    k: int,
    i: int,
)
    requires
        0 <= k <= i < ids.len(),
        forall|j: int| k <= j < i ==> #[trigger] is_usable(allowed, known, ids, j),
    ensures
        hosts_refusal(allowed, known, ids, k) == hosts_refusal(allowed, known, ids, i),
    decreases i - k,
{
    if k < i {
        assert(is_usable(allowed, known, ids, k));
        if ids.take(k).contains(ids[k]) {
            let j = choose|j: int| 0 <= j < k && ids.take(k)[j] == ids[k];
            assert(ids[j] == ids[k]);
        }
        a_refusal_is_the_first_fault(allowed, known, ids, k + 1, i);
    }
}

/// The first host that may not be used decides what is answered: a host that is
/// not allowed, or named before, is not authorized; one that is not configured is
/// a bad request.
pub proof fn the_first_unusable_host_decides(
    snapshot: Snapshot,
    allowed: Seq<Seq<char>>,
    ids: Seq<Seq<char>>,
    maximum: nat,
    i: int,
)
    requires
        0 <= i < ids.len() <= maximum,
        forall|j: int|
            0 <= j < i ==> allowed.contains(#[trigger] ids[j]) && entry_ids(
                snapshot.hosts@,
            ).contains(ids[j]),
        forall|j: int, k: int| 0 <= j < k < i ==> ids[j] != ids[k],
    ensures
        !allowed.contains(ids[i]) || (exists|j: int| 0 <= j < i && ids[j] == ids[i])
            ==> targets_refusal(snapshot, allowed, ids, maximum) == Some(ErrorCode::Unauthorized),
        allowed.contains(ids[i]) && (forall|j: int| 0 <= j < i ==> ids[j] != ids[i])
            && !entry_ids(snapshot.hosts@).contains(ids[i]) ==> targets_refusal(
            snapshot,
            allowed,
            ids,
            maximum,
        ) == Some(ErrorCode::BadRequest),
{
    let known = entry_ids(snapshot.hosts@);
    assert forall|j: int| 0 <= j < i implies #[trigger] is_usable(allowed, known, ids, j) by {
        assert(allowed.contains(ids[j]));
    }
    a_refusal_is_the_first_fault(allowed, known, ids, 0, i);
    if exists|j: int| 0 <= j < i && ids[j] == ids[i] {
        let j = choose|j: int| 0 <= j < i && ids[j] == ids[i];
        assert(ids.take(i)[j] == ids[i]);
    } else if ids.take(i).contains(ids[i]) {
        let j = choose|j: int| 0 <= j < i && ids.take(i)[j] == ids[i];
        assert(ids[j] == ids[i]);
    }
}

/// What is probed or woken for a request is what the request names: all of its
/// hosts, in their order, each with its settings.
pub proof fn exactly_the_named_hosts_are_touched(
    snapshot: Snapshot,
    books: BooksModel,
    call: Call,
    operation: ClientOperation,
    fresh: [u8; 32],
)
    requires
        snapshot.wf(),
    ensures
        ({
            let step = request_step(snapshot, books, call, operation, fresh).0;
            &&& step matches StepModel::Dispatch(key, attempt, ticket, hosts) ==> {
                &&& operation is Wake
                &&& entry_ids(hosts) == texts(operation->Wake_host_ids@)
                &&& forall|i: int| 0 <= i < hosts.len() ==> snapshot.hosts@.contains(#[trigger] hosts[i])
                &&& key == call.key()
                &&& attempt == operation->attempt
                &&& operation->Wake_catalog_version == snapshot.catalog_version
                &&& attempt == 1 ==> ticket == fresh && operation->retry_ticket is None
                &&& attempt != 1 ==> operation->retry_ticket == Some(ticket)
            }
            &&& step matches StepModel::Probe(key, hosts) ==> {
                &&& operation is GetStatuses
                &&& entry_ids(hosts) == texts(operation->GetStatuses_host_ids@)
                &&& forall|i: int| 0 <= i < hosts.len() ==> snapshot.hosts@.contains(#[trigger] hosts[i])
                &&& key == call.key()
                &&& operation->GetStatuses_catalog_version == snapshot.catalog_version
            }
        }),
{
    let step = request_step(snapshot, books, call, operation, fresh).0;
    match operation {
        ClientOperation::GetStatuses { catalog_version, host_ids } => {
            if step is Probe {
                named_entries_are_found(snapshot, call.allowed, texts(host_ids@), 8);
            }
        },
        ClientOperation::Wake { catalog_version, host_ids, attempt, boot_nonce, retry_ticket } => {
            if step is Dispatch {
                named_entries_are_found(snapshot, call.allowed, texts(host_ids@), 64);
            }
        },
        _ => {},
    }
}

proof fn named_entries_are_found(
    snapshot: Snapshot,
    allowed: Seq<Seq<char>>,
    ids: Seq<Seq<char>>,
    maximum: nat,
)
    requires
        snapshot.wf(),
        targets_refusal(snapshot, allowed, ids, maximum) is None,
    ensures
        entry_ids(entries_named(snapshot.hosts@, ids)) == ids,
        forall|i: int|
            0 <= i < ids.len() ==> snapshot.hosts@.contains(
                #[trigger] entries_named(snapshot.hosts@, ids)[i],
            ),
{
    hosts_are_accepted_exactly_if_usable(snapshot, allowed, ids, maximum);
    let known = entry_ids(snapshot.hosts@);
    let hosts = entries_named(snapshot.hosts@, ids);
    assert forall|i: int| 0 <= i < ids.len() implies snapshot.hosts@.contains(#[trigger] hosts[i])
        && hosts[i].id@ == ids[i] by {
        assert(known.contains(ids[i]));
        let k = choose|k: int| 0 <= k < known.len() && known[k] == ids[i];
        assert(snapshot.hosts@.contains(snapshot.hosts@[k]));
        assert(snapshot.hosts@[k].id@ == ids[i]);
    }
    assert(entry_ids(hosts) =~= ids);
}

/// A first wake of hosts that the client may use, for which there is room and no
/// pause, is dispatched to all of them.
pub proof fn a_new_wake_is_dispatched(
    snapshot: Snapshot,
    books: BooksModel,
    call: Call,
    operation: ClientOperation,
    fresh: [u8; 32],
)
    requires
        snapshot.wf(),
        call.headers == header_models(snapshot.headers@),
        operation is Wake,
        operation->Wake_catalog_version == snapshot.catalog_version,
        operation->attempt == 1,
        operation->retry_ticket is None,
        0 < operation->Wake_host_ids@.len() <= 64,
        texts(operation->Wake_host_ids@).no_duplicates(),
        forall|i: int|
            0 <= i < operation->Wake_host_ids@.len() ==> call.allowed.contains(
                (#[trigger] operation->Wake_host_ids@[i])@,
            ) && entry_ids(snapshot.hosts@).contains(operation->Wake_host_ids@[i]@),
        !(books.entries.contains_key(call.key()) && books.entries[call.key()].expires > call.now),
        has_room(live(books.entries, call.now), call.client_key),
        forall|key: OperationKey|
            (#[trigger] ticket_of(live(books.entries, call.now), key)) != Some(fresh),
        forall|i: int|
            0 <= i < operation->Wake_host_ids@.len() ==> {
                let target = TargetModel {
                    client_key: call.client_key,
                    host_id: (#[trigger] operation->Wake_host_ids@[i])@,
                };
                !books.last_wake.contains_key(target) || call.now >= books.last_wake[target]
                    + 10_000_000_000
            },
    ensures
        request_step(snapshot, books, call, operation, fresh).0 is Dispatch,
{
    let list = operation->Wake_host_ids@;
    let ids = texts(list);
    assert forall|i: int| 0 <= i < ids.len() implies call.allowed.contains(#[trigger] ids[i])
        && entry_ids(snapshot.hosts@).contains(ids[i]) by {
        assert(call.allowed.contains(list[i]@));
    }
    hosts_are_accepted_exactly_if_usable(snapshot, call.allowed, ids, 64);
    let left = cooling(books.last_wake, call.now);
    sorted_texts_hold_the_same(ids);
    let sorted = sorted_texts(ids);
    assert(none_cooling(left, call.client_key, sorted)) by {
        assert forall|i: int| 0 <= i < sorted.len() implies !left.contains_key(
            (TargetModel { client_key: call.client_key, host_id: #[trigger] sorted[i] }),
        ) by {
            assert(sorted.contains(sorted[i]));
            assert(ids.contains(sorted[i]));
            let k = choose|k: int| 0 <= k < ids.len() && ids[k] == sorted[i];
            assert(list[k]@ == sorted[i]);
        }
    }
    assert(!in_use(live(books.entries, call.now), fresh));
}

/// A request for the states of hosts that the client may use, that is new and for
/// which there is room, has them all probed.
pub proof fn a_new_status_request_is_probed(
    snapshot: Snapshot,
    books: BooksModel,
    call: Call,
    operation: ClientOperation,
    fresh: [u8; 32],
)
    requires
        snapshot.wf(),
        call.headers == header_models(snapshot.headers@),
        operation is GetStatuses,
        operation->GetStatuses_catalog_version == snapshot.catalog_version,
        0 < operation->GetStatuses_host_ids@.len() <= 8,
        texts(operation->GetStatuses_host_ids@).no_duplicates(),
        forall|i: int|
            0 <= i < operation->GetStatuses_host_ids@.len() ==> call.allowed.contains(
                (#[trigger] operation->GetStatuses_host_ids@[i])@,
            ) && entry_ids(snapshot.hosts@).contains(operation->GetStatuses_host_ids@[i]@),
        !(books.entries.contains_key(call.key()) && books.entries[call.key()].expires > call.now),
        has_room(live(books.entries, call.now), call.client_key),
    ensures
        request_step(snapshot, books, call, operation, fresh).0 is Probe,
{
    let list = operation->GetStatuses_host_ids@;
    let ids = texts(list);
    assert forall|i: int| 0 <= i < ids.len() implies call.allowed.contains(#[trigger] ids[i])
        && entry_ids(snapshot.hosts@).contains(ids[i]) by {
        assert(call.allowed.contains(list[i]@));
    }
    hosts_are_accepted_exactly_if_usable(snapshot, call.allowed, ids, 8);
}

/// The ledger has room for a client exactly while it holds fewer than 4096
/// operations, and fewer than 256 of that client.
pub proof fn the_ledger_is_bounded(entries: Map<OperationKey, EntryModel>, client_key: [u8; 32])
    ensures
        has_room(entries, client_key) <==> entries.dom().len() < 4096 && entries.dom().filter(
            |k: OperationKey| k.client_key == client_key,
        ).len() < 256,
{
}

/// An entry of the ledger is alive exactly until it expires.
pub proof fn an_entry_lives_until_it_expires(
    entries: Map<OperationKey, EntryModel>,
    key: OperationKey,
    now: u64,
)
    ensures
        live(entries, now).contains_key(key) <==> entries.contains_key(key) && entries[key].expires
            > now,
        live(entries, now).contains_key(key) ==> live(entries, now)[key] == entries[key],
{
}

/// A host was seen, was not, or was not probed: each shows as its own state.
pub proof fn a_state_is_what_the_probe_showed(
    hosts: Seq<HostEntry>,
    seen: Seq<(Option<bool>, u64)>,
    i: int,
)
    requires
        seen.len() == hosts.len(),
        0 <= i < hosts.len(),
    ensures
        observed(hosts, seen).len() == hosts.len(),
        observed(hosts, seen)[i].host_id == hosts[i].id@,
        observed(hosts, seen)[i].observed_at_ms == seen[i].1,
        observed(hosts, seen)[i].state == HostState::Online <==> seen[i].0 == Some(true),
        observed(hosts, seen)[i].state == HostState::Offline <==> seen[i].0 == Some(false),
        observed(hosts, seen)[i].state == HostState::Unknown <==> seen[i].0 is None,
{
}

/// A wake was accepted exactly where it was sent; elsewhere the receipt says why
/// not. Every host has its result, in order.
pub proof fn a_receipt_says_what_was_sent(
    hosts: Seq<HostEntry>,
    outcomes: Seq<WakeOutcome>,
    i: int,
)
    requires
        outcomes.len() == hosts.len(),
        0 <= i < hosts.len(),
    ensures
        results_of(hosts, outcomes).len() == hosts.len(),
        results_of(hosts, outcomes)[i].host_id == hosts[i].id@,
        results_of(hosts, outcomes)[i].accepted <==> outcomes[i] == WakeOutcome::Sent,
        results_of(hosts, outcomes)[i].error_code is None <==> outcomes[i] == WakeOutcome::Sent,
        results_of(hosts, outcomes)[i].error_code == Some(WakeErrorCode::InvalidTarget)
            <==> outcomes[i] == WakeOutcome::InvalidTarget,
        results_of(hosts, outcomes)[i].error_code == Some(WakeErrorCode::SenderUnavailable)
            <==> outcomes[i] == WakeOutcome::Unavailable,
{
}

/// A receipt names its operation, its attempt and its ticket, and how long its
/// hosts are watched: for a minute.
pub proof fn a_receipt_names_its_wake(
    call: Call,
    attempt: u8,
    ticket: [u8; 32],
    results: Seq<ResultModel>,
)
    ensures
        ({
            let reply = receipt(call, attempt, ticket, results);
            &&& reply.request_id == call.request_id
            &&& reply.issued_at_ms == call.now_ms
            &&& reply.headers == call.headers
            &&& reply.event is CommandExecuted
            &&& reply.event->CommandExecuted_operation_id == call.request_id
            &&& reply.event->CommandExecuted_attempt == attempt
            &&& reply.event->retry_ticket == ticket
            &&& reply.event->results == results
            &&& call.now_ms + 60_000 <= u64::MAX ==> reply.event->deadline_ms == call.now_ms
                + 60_000
            &&& call.now_ms + 60_000 > u64::MAX ==> reply.event->deadline_ms == u64::MAX
        }),
{
}

/// A wake that comes too soon is answered for every host that it is not accepted.
pub proof fn a_hasty_wake_is_refused_for_every_host(ids: Seq<Seq<char>>, i: int)
    requires
        0 <= i < ids.len(),
    ensures
        too_soon(ids).len() == ids.len(),
        too_soon(ids)[i].host_id == ids[i],
        !too_soon(ids)[i].accepted,
        too_soon(ids)[i].error_code == Some(WakeErrorCode::RateLimited),
{
}

proof fn sent_to_holds(hosts: Seq<HostEntry>, outcomes: Seq<WakeOutcome>, entry: HostEntry)
    requires
        outcomes.len() >= hosts.len(),
    ensures
        sent_to(hosts, outcomes).len() <= hosts.len(),
        sent_to(hosts, outcomes).contains(entry) <==> exists|i: int|
            0 <= i < hosts.len() && #[trigger] hosts[i] == entry && outcomes[i]
                == WakeOutcome::Sent,
        (forall|i: int| 0 <= i < hosts.len() ==> #[trigger] outcomes[i] == WakeOutcome::Sent)
            ==> sent_to(hosts, outcomes) == hosts,
    decreases hosts.len(),
{
    if hosts.len() > 0 {
        let front = hosts.drop_last();
        sent_to_holds(front, outcomes, entry);
        let some = sent_to(front, outcomes);
        let all = sent_to(hosts, outcomes);
        let n = hosts.len() - 1;
        if all.contains(entry) {
            let k = choose|k: int| 0 <= k < all.len() && all[k] == entry;
            if k < some.len() {
                assert(some[k] == entry);
                assert(some.contains(entry));
                let i = choose|i: int|
                    0 <= i < front.len() && #[trigger] front[i] == entry && outcomes[i]
                        == WakeOutcome::Sent;
                assert(hosts[i] == entry);
            } else {
                assert(hosts[n] == entry && outcomes[n] == WakeOutcome::Sent);
            }
        }
        if exists|i: int|
            0 <= i < hosts.len() && #[trigger] hosts[i] == entry && outcomes[i]
                == WakeOutcome::Sent {
            let i = choose|i: int|
                0 <= i < hosts.len() && #[trigger] hosts[i] == entry && outcomes[i]
                    == WakeOutcome::Sent;
            if i < n {
                assert(front[i] == entry);
                let k = choose|k: int| 0 <= k < some.len() && some[k] == entry;
                assert(all[k] == entry);
            } else {
                assert(all[all.len() - 1] == entry);
            }
        }
        if forall|i: int| 0 <= i < hosts.len() ==> #[trigger] outcomes[i] == WakeOutcome::Sent {
            assert(some == front);
            assert(outcomes[n] == WakeOutcome::Sent);
            assert(all =~= hosts);
        }
    }
}

/// Exactly the hosts that a wake was sent to are watched: from now on, for a
/// minute, none of them seen yet.
pub proof fn sent_hosts_are_watched(
    operation_id: [u8; 16],
    attempt: u8,
    hosts: Seq<HostEntry>,
    outcomes: Seq<WakeOutcome>,
    now: u64,
    entry: HostEntry,
)
    requires
        outcomes.len() == hosts.len(),
        now <= CLOCK_END,
    ensures
        ({
            let monitor = new_monitor(
                operation_id,
                attempt,
                sent_to(hosts, outcomes),
                now,
                60_000_000_000,
            );
            &&& monitor is Some <==> exists|i: int|
                0 <= i < hosts.len() && #[trigger] outcomes[i] == WakeOutcome::Sent
            &&& monitor is Some ==> {
                &&& monitor->0.operation_id == operation_id
                &&& monitor->0.attempt == attempt
                &&& monitor->0.online.len() == 0
                &&& monitor->0.next_probe == now
                &&& monitor->0.deadline == now + 60_000_000_000
                &&& monitor->0.targets.contains(entry) <==> exists|i: int|
                    0 <= i < hosts.len() && #[trigger] hosts[i] == entry && outcomes[i]
                        == WakeOutcome::Sent
            }
        }),
{
    sent_to_holds(hosts, outcomes, entry);
    let sent = sent_to(hosts, outcomes);
    if sent.len() > 0 {
        sent_to_holds(hosts, outcomes, sent[0]);
        assert(sent.contains(sent[0]));
        let i = choose|i: int|
            0 <= i < hosts.len() && #[trigger] hosts[i] == sent[0] && outcomes[i]
                == WakeOutcome::Sent;
        assert(outcomes[i] == WakeOutcome::Sent);
    }
    if exists|i: int| 0 <= i < hosts.len() && #[trigger] outcomes[i] == WakeOutcome::Sent {
        let i = choose|i: int| 0 <= i < hosts.len() && #[trigger] outcomes[i] == WakeOutcome::Sent;
        sent_to_holds(hosts, outcomes, hosts[i]);
        assert(sent.contains(hosts[i]));
    }
}


proof fn accepted_has(results: Seq<ResultModel>, id: Seq<char>)
    ensures
        accepted_ids(results).contains(id) <==> exists|i: int|
            0 <= i < results.len() && (#[trigger] results[i]).accepted && results[i].host_id == id,
    decreases results.len(),
{
    if results.len() > 0 {
        let front = results.drop_last();
        accepted_has(front, id);
        let some = accepted_ids(front);
        let all = accepted_ids(results);
        let n = results.len() - 1;
        if all.contains(id) {
            let k = choose|k: int| 0 <= k < all.len() && all[k] == id;
            if k < some.len() {
                assert(some[k] == id);
                let i = choose|i: int|
                    0 <= i < front.len() && (#[trigger] front[i]).accepted && front[i].host_id
                        == id;
                assert(results[i].accepted && results[i].host_id == id);
            } else {
                assert(results[n].accepted && results[n].host_id == id);
            }
        }
        if exists|i: int|
            0 <= i < results.len() && (#[trigger] results[i]).accepted && results[i].host_id
                == id {
            let i = choose|i: int|
                0 <= i < results.len() && (#[trigger] results[i]).accepted && results[i].host_id
                    == id;
            if i < n {
                assert(front[i].accepted && front[i].host_id == id);
                let k = choose|k: int| 0 <= k < some.len() && some[k] == id;
                assert(all[k] == id);
            } else {
                assert(all[all.len() - 1] == id);
            }
        }
    }
}

proof fn entries_in_is_filtered(hosts: Seq<HostEntry>, ids: Seq<Seq<char>>)
    ensures
        entries_in(hosts, ids) == hosts.filter(|entry: HostEntry| ids.contains(entry.id@)),
    decreases hosts.len(),
{
    reveal(Seq::filter);
    if hosts.len() > 0 {
        entries_in_is_filtered(hosts.drop_last(), ids);
    }
}

/// Where a receipt is given out again, exactly the hosts whose wake was accepted
/// are watched, for what is left of the minute.
pub proof fn a_recovered_receipt_resumes_the_watch(
    response: ReplyModel,
    hosts: Seq<HostEntry>,
    now: u64,
    now_ms: u64,
    entry: HostEntry,
)
    requires
        response.event is CommandExecuted,
        now <= CLOCK_END,
    ensures
        ({
            let monitor = resumed_monitor(response, hosts, now, now_ms);
            let results = response.event->results;
            let deadline_ms = response.event->deadline_ms;
            &&& monitor is Some <==> now_ms < deadline_ms && exists|h: int, i: int|
                0 <= h < hosts.len() && 0 <= i < results.len() && (#[trigger] results[i]).accepted
                    && results[i].host_id == (#[trigger] hosts[h]).id@
            &&& monitor is Some ==> {
                &&& monitor->0.operation_id == response.event->CommandExecuted_operation_id
                &&& monitor->0.attempt == response.event->CommandExecuted_attempt
                &&& monitor->0.online.len() == 0
                &&& monitor->0.next_probe == now
                &&& monitor->0.deadline == now + 1_000_000 * if deadline_ms - now_ms > 60_000 {
                    60_000
                } else {
                    deadline_ms - now_ms
                }
                &&& monitor->0.targets.contains(entry) <==> hosts.contains(entry) && exists|i: int|
                    0 <= i < results.len() && (#[trigger] results[i]).accepted
                        && results[i].host_id == entry.id@
            }
        }),
{
    let results = response.event->results;
    let ids = accepted_ids(results);
    let pass = |entry: HostEntry| ids.contains(entry.id@);
    let watched = entries_in(hosts, ids);
    entries_in_is_filtered(hosts, ids);
    accepted_has(results, entry.id@);
    filtered_has(hosts, pass, entry);
    if watched.len() > 0 {
        filtered_has(hosts, pass, watched[0]);
        assert(watched.contains(watched[0]));
        accepted_has(results, watched[0].id@);
        let h = choose|h: int| 0 <= h < hosts.len() && hosts[h] == watched[0];
        let i = choose|i: int|
            0 <= i < results.len() && (#[trigger] results[i]).accepted && results[i].host_id
                == watched[0].id@;
        assert(results[i].accepted && results[i].host_id == hosts[h].id@);
    }
    if exists|h: int, i: int|
        0 <= h < hosts.len() && 0 <= i < results.len() && (#[trigger] results[i]).accepted
            && results[i].host_id == (#[trigger] hosts[h]).id@ {
        let (h, i) = choose|h: int, i: int|
            0 <= h < hosts.len() && 0 <= i < results.len() && (#[trigger] results[i]).accepted
                && results[i].host_id == (#[trigger] hosts[h]).id@;
        accepted_has(results, hosts[h].id@);
        filtered_has(hosts, pass, hosts[h]);
        assert(hosts.contains(hosts[h]));
        assert(watched.contains(hosts[h]));
    }
}

/// A request with other headers than those of the server is refused and leaves no
/// trace.
pub proof fn other_headers_are_refused(
    snapshot: Snapshot,
    books: BooksModel,
    call: Call,
    operation: ClientOperation,
    fresh: [u8; 32],
)
    requires
        call.headers != header_models(snapshot.headers@),
    ensures
        request_step(snapshot, books, call, operation, fresh).0 is Refuse,
        request_step(snapshot, books, call, operation, fresh).1 == books,
{
}

/// The step tells of an error.
pub open spec fn tells(step: StepModel, call: Call, code: ErrorCode, retryable: bool) -> bool {
    let reply = ReplyModel {
        version: crate::protocol::PROTOCOL_VERSION,
        request_id: call.request_id,
        issued_at_ms: call.now_ms,
        headers: call.headers,
        event: EventModel::Error { code, retryable },
    };
    match reply.fault() {
        Some(fault) => step == StepModel::Fail(fault),
        None => step == StepModel::Reply(reply, None),
    }
}

/// A request about another catalogue than the one in force is told so, may be
/// tried again, and leaves no trace; so does one for hosts that may not be used.
pub proof fn a_refused_request_leaves_no_trace(
    snapshot: Snapshot,
    books: BooksModel,
    call: Call,
    operation: ClientOperation,
    fresh: [u8; 32],
)
    requires
        call.headers == header_models(snapshot.headers@),
        !(operation is ListHosts),
    ensures
        ({
            let (step, after) = request_step(snapshot, books, call, operation, fresh);
            let (version, ids, maximum) = match operation {
                ClientOperation::GetStatuses { catalog_version, host_ids } => (
                    catalog_version,
                    texts(host_ids@),
                    8nat,
                ),
                ClientOperation::Wake { catalog_version, host_ids, .. } => (
                    catalog_version,
                    texts(host_ids@),
                    64nat,
                ),
                _ => (0, Seq::empty(), 0nat),
            };
            let refusal = targets_refusal(snapshot, call.allowed, ids, maximum);
            &&& version != snapshot.catalog_version ==> tells(
                step,
                call,
                ErrorCode::StaleCatalog,
                true,
            ) && after == books
            &&& version == snapshot.catalog_version && refusal is Some ==> tells(
                step,
                call,
                refusal->0,
                false,
            ) && after == books
        }),
{
}

/// A first attempt shows no ticket and a second one shows one; any other wake is
/// taken for a replay and leaves no trace.
pub proof fn a_wake_shows_its_ticket(
    snapshot: Snapshot,
    books: BooksModel,
    call: Call,
    operation: ClientOperation,
    fresh: [u8; 32],
)
    requires
        call.headers == header_models(snapshot.headers@),
        operation is Wake,
        operation->Wake_catalog_version == snapshot.catalog_version,
        targets_refusal(snapshot, call.allowed, texts(operation->Wake_host_ids@), 64) is None,
        operation->attempt == 1 <==> operation->retry_ticket is Some,
    ensures
        tells(
            request_step(snapshot, books, call, operation, fresh).0,
            call,
            ErrorCode::Replay,
            false,
        ),
        request_step(snapshot, books, call, operation, fresh).1 == books,
{
}

/// A new request is reserved in the ledger for two minutes, with its digest, and
/// nothing else is changed but what had expired.
pub proof fn a_new_request_is_reserved(
    entries: Map<OperationKey, EntryModel>,
    key: OperationKey,
    other: OperationKey,
    digest: [u8; 32],
    now: u64,
)
    requires
        now <= CLOCK_END,
    ensures
        ({
            let alive = |k: OperationKey| entries.contains_key(k) && entries[k].expires > now;
            let verdict = request_verdict(live(entries, now), key, digest);
            let after = after_request(entries, key, digest, now);
            &&& verdict is New <==> !alive(key) && has_room(live(entries, now), key.client_key)
            &&& verdict is Conflict <==> alive(key) && entries[key].digest != digest
            &&& verdict is Cached <==> alive(key) && entries[key].digest == digest
                && !entries[key].pending && entries[key].response is Some
            &&& verdict is Cached ==> verdict->Cached_0 == entries[key].response->0
            &&& after.contains_key(other) <==> alive(other) || (other == key && verdict is New)
            &&& alive(other) && !(other == key && verdict is New) ==> after[other]
                == entries[other]
            &&& verdict is New ==> after[key] == (EntryModel {
                digest,
                wake: None,
                response: None,
                pending: true,
                expires: (now + 120_000_000_000) as u64,
            })
        }),
{
}

/// A first attempt is admitted exactly if its operation is not known, there is
/// room, and its ticket is not in use; it is then reserved for two minutes, with a
/// ticket that is good for ninety seconds.
pub proof fn a_first_attempt_is_reserved(
    entries: Map<OperationKey, EntryModel>,
    key: OperationKey,
    digest: [u8; 32],
    catalog_version: u64,
    ids: Seq<Seq<char>>,
    boot_nonce: [u8; 16],
    ticket: [u8; 32],
    now: u64,
)
    requires
        now <= CLOCK_END,
    ensures
        ({
            let alive = entries.contains_key(key) && entries[key].expires > now;
            let wake = first_wake(catalog_version, ids, boot_nonce, ticket, now);
            let verdict = first_verdict(live(entries, now), key, digest, ticket);
            let after = after_first(entries, key, digest, wake, now);
            &&& verdict is New <==> !alive && has_room(live(entries, now), key.client_key)
                && !in_use(live(entries, now), ticket)
            &&& verdict is Conflict <==> alive && entries[key].digest != digest
            &&& verdict is Cached <==> alive && entries[key].digest == digest
                && !entries[key].pending && entries[key].response is Some && (entries[key].wake is
                None || entries[key].wake->0.attempt == 1)
            &&& verdict is Cached ==> verdict->Cached_0 == entries[key].response->0
            &&& verdict is New ==> {
                &&& after[key].digest == digest
                &&& after[key].pending
                &&& after[key].response is None
                &&& after[key].expires == now + 120_000_000_000
                &&& after[key].wake is Some
                &&& after[key].wake->0.catalog_version == catalog_version
                &&& after[key].wake->0.host_ids == ids
                &&& after[key].wake->0.boot_nonce == boot_nonce
                &&& after[key].wake->0.ticket == ticket
                &&& after[key].wake->0.ticket_expires == now + 90_000_000_000
                &&& !after[key].wake->0.ticket_used
                &&& after[key].wake->0.attempt == 1
            }
        }),
{
}

/// A recorded answer is kept for a quarter of an hour, and the ticket of a first
/// attempt is good for another ninety seconds.
pub proof fn an_answer_is_kept(
    entries: Map<OperationKey, EntryModel>,
    key: OperationKey,
    response: ReplyModel,
    now: u64,
)
    requires
        entries.contains_key(key),
        now <= CLOCK_END,
    ensures
        ({
            let after = after_complete(entries, key, response, now)[key];
            let was = entries[key];
            &&& after.digest == was.digest
            &&& !after.pending
            &&& after.response == Some(response)
            &&& after.expires == now + 900_000_000_000
            &&& after.wake is Some <==> was.wake is Some
            &&& was.wake is Some ==> {
                &&& after.wake->0.ticket == was.wake->0.ticket
                &&& after.wake->0.ticket_used == was.wake->0.ticket_used
                &&& after.wake->0.attempt == was.wake->0.attempt
                &&& after.wake->0.catalog_version == was.wake->0.catalog_version
                &&& after.wake->0.host_ids == was.wake->0.host_ids
                &&& after.wake->0.boot_nonce == was.wake->0.boot_nonce
                &&& after.wake->0.ticket_expires == if was.wake->0.attempt == 1
                    && !was.wake->0.ticket_used {
                    now + 90_000_000_000
                } else {
                    was.wake->0.ticket_expires as int
                }
            }
        }),
{
}

/// A second attempt is admitted exactly if it repeats an answered first attempt
/// with its ticket, in time, and the ticket has not been used; it is answered from
/// the record exactly if it is the attempt that was answered last.
pub proof fn a_second_attempt_needs_its_ticket(
    entries: Map<OperationKey, EntryModel>,
    key: OperationKey,
    digest: [u8; 32],
    catalog_version: u64,
    ids: Seq<Seq<char>>,
    boot_nonce: [u8; 16],
    ticket: [u8; 32],
    now: u64,
)
    ensures
        ({
            let verdict = retry_verdict(
                entries,
                key,
                digest,
                catalog_version,
                ids,
                boot_nonce,
                ticket,
                now,
            );
            let wake = entries[key].wake->0;
            let shown = entries.contains_key(key) && entries[key].wake is Some && wake.ticket
                == ticket && now < wake.ticket_expires;
            &&& verdict is New <==> shown && entries[key].digest == digest && !entries[key].pending
                && wake.attempt == 1 && !wake.ticket_used && wake.catalog_version
                == catalog_version && wake.host_ids == ids && wake.boot_nonce == boot_nonce
            &&& verdict is Cached <==> shown && entries[key].digest == digest
                && !entries[key].pending && wake.attempt >= 2 && entries[key].response is Some
            &&& verdict is Cached ==> verdict->Cached_0 == entries[key].response->0
            &&& verdict is Conflict <==> shown && entries[key].digest != digest
            &&& verdict is Busy <==> shown && entries[key].digest == digest && entries[key].pending
            &&& !shown ==> verdict is Replay
        }),
{
}

/// A second attempt that is dispatched keeps its record, spends its ticket, and is
/// pending for two minutes.
pub proof fn a_second_attempt_spends_its_ticket(entry: EntryModel, now: u64)
    requires
        entry.wake is Some,
        now <= CLOCK_END,
    ensures
        ({
            let after = retried(entry, now);
            &&& after.wake is Some
            &&& after.wake->0.ticket_used
            &&& after.wake->0.attempt == 2
            &&& after.wake->0.ticket == entry.wake->0.ticket
            &&& after.wake->0.host_ids == entry.wake->0.host_ids
            &&& after.wake->0.boot_nonce == entry.wake->0.boot_nonce
            &&& after.wake->0.catalog_version == entry.wake->0.catalog_version
            &&& after.wake->0.ticket_expires == entry.wake->0.ticket_expires
            &&& after.digest == entry.digest
            &&& after.response is None
            &&& after.pending
            &&& after.expires == now + 120_000_000_000
        }),
{
}

/// A request for the catalogue that is repeated while its record lasts is answered
/// as the first time, only later.
pub proof fn a_repeated_list_request_is_answered_alike(
    snapshot: Snapshot,
    books: BooksModel,
    call: Call,
    later: Call,
    fresh: [u8; 32],
    other: [u8; 32],
)
    requires
        snapshot.wf(),
        call.headers == header_models(snapshot.headers@),
        !live(books.entries, call.now).contains_key(call.key()),
        has_room(live(books.entries, call.now), call.client_key),
        !crate::octets::is_zero(call.request_id@),
        call.now_ms != 0,
        call.now <= CLOCK_END,
        later.client_key == call.client_key,
        later.request_id == call.request_id,
        later.headers == call.headers,
        later.now_ms != 0,
        call.now <= later.now < call.now + 900_000_000_000,
    ensures
        ({
            let (step, after) = request_step(
                snapshot,
                books,
                call,
                ClientOperation::ListHosts,
                fresh,
            );
            let again = request_step(snapshot, after, later, ClientOperation::ListHosts, other).0;
            &&& step is Reply
            &&& again is Reply
            &&& again->Reply_0.event == step->Reply_0.event
            &&& again->Reply_0.request_id == step->Reply_0.request_id
            &&& again->Reply_0.issued_at_ms == later.now_ms
        }),
{
    a_new_list_request_is_answered(snapshot, books, call, fresh, Seq::empty());
    let (step, after) = request_step(snapshot, books, call, ClientOperation::ListHosts, fresh);
    let digest = digest_of(call.headers, "list"@, 0, Seq::empty(), None);
    assert(after.entries.contains_key(call.key()));
    assert(after.entries[call.key()].digest == digest);
    assert(after.entries[call.key()].response == Some(step->Reply_0));
    assert(!after.entries[call.key()].pending);
    assert(later.key() == call.key());
    assert(live(after.entries, later.now).contains_key(later.key()));
    crate::request::a_catalogue_is_always_valid(
        snapshot,
        call.allowed,
        call.request_id,
        later.now_ms,
    );
}

/// A request is known again by a digest of its kind, the headers and everything that it
/// asks for: the hosts of a wake in order, those of a status request as they stand, and
/// the nonce of a wake.
pub proof fn a_request_is_known_by_all_that_it_asks_for(
    snapshot: Snapshot,
    books: BooksModel,
    call: Call,
    catalog_version: u64,
    host_ids: Vec<String>,
    boot_nonce: [u8; 16],
    ticket: Option<[u8; 32]>,
    fresh: [u8; 32],
)
    ensures
        ({
            let digest = digest_of(call.headers, "list"@, 0, Seq::empty(), None);
            let verdict = request_verdict(live(books.entries, call.now), call.key(), digest);
            let (step, after) = list_step(snapshot, books, call);
            &&& !(verdict is New) ==> after.entries == after_request(
                books.entries,
                call.key(),
                digest,
                call.now,
            )
            &&& verdict is New && step is Reply ==> after.entries == after_complete(
                after_request(books.entries, call.key(), digest, call.now),
                call.key(),
                step->Reply_0,
                call.now,
            )
        }),
        ({
            let ids = texts(host_ids@);
            let digest = digest_of(
                call.headers,
                "status"@,
                catalog_version,
                ids,
                None,
            );
            let verdict = request_verdict(live(books.entries, call.now), call.key(), digest);
            let (step, after) = status_step(
                snapshot,
                books,
                call,
                catalog_version,
                ids,
            );
            let asked = catalog_version == snapshot.catalog_version
                && targets_refusal(snapshot, call.allowed, ids, 8) is None;
            &&& step is Probe <==> asked && verdict is New
            &&& asked ==> after.entries == after_request(
                books.entries,
                call.key(),
                digest,
                call.now,
            )
            &&& !asked ==> after == books
        }),
        ({
            let ids = texts(host_ids@);
            let sorted = sorted_texts(ids);
            let digest = digest_of(
                call.headers,
                "wake"@,
                catalog_version,
                sorted,
                Some(boot_nonce@),
            );
            let wake = |attempt: u8|
                wake_step(
                    snapshot,
                    books,
                    call,
                    catalog_version,
                    host_ids,
                    attempt,
                    boot_nonce,
                    ticket,
                    fresh,
                );
            let entries = live(books.entries, call.now);
            let known = first_verdict(entries, call.key(), digest, fresh);
            let again = retry_verdict(
                entries,
                call.key(),
                digest,
                catalog_version,
                sorted,
                boot_nonce,
                ticket->0,
                call.now,
            );
            &&& wake(1).0 is Dispatch ==> known is New && wake(1).1.entries == after_first(
                books.entries,
                call.key(),
                digest,
                first_wake(catalog_version, sorted, boot_nonce, fresh, call.now),
                call.now,
            )
            &&& wake(2).0 is Dispatch ==> ticket is Some && again is New && wake(2).1.entries
                == entries.insert(
                call.key(),
                retried(entries[call.key()], call.now),
            )
        }),
{
}

} // verus!
