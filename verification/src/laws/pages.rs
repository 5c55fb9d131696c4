//! What the pages of the program show.

use crate::client::NewsModel;
use crate::client_view::{
    refused_ids, selected_ids, shown_state, with_receipt, with_statuses, ClientConnectionPhase,
    RowHostState, RowModel, Screen, ViewModel, WakePhase,
};
use crate::config::{host_id_of, AllowedModel, HostModel};
use crate::desk::{is_shown, kept_logs, shown_clients, DeskModel, LogModel, ServerPhase};
use crate::forms::kept_hosts;
use crate::issue::{chosen_ids, is_taken, OutputPlace};
use crate::laws::lists::filtered_has;
use crate::policy::id_set;
use crate::protocol::{HostState, ResultModel, StatusModel};
use crate::security::fingerprint_of;
use crate::server_view::{host_named, host_of, kept_index, reconciled, row_of, ClientRowModel};
use crate::text::{lowered, trimmed};
use crate::wake::Outcome;
use vstd::prelude::*;

verus! {

/// The states of the server show as they are: a host that answered, or whose wake
/// succeeded, as online; one that did not as offline.
pub proof fn a_state_shows_as_it_is(state: HostState)
    ensures
        shown_state(state) == RowHostState::Online <==> state == HostState::Online || state
            == HostState::Succeeded,
        shown_state(state) == RowHostState::Offline <==> state == HostState::Offline || state
            == HostState::Failed,
        shown_state(state) == RowHostState::Waking <==> state == HostState::Waking,
        shown_state(state) == RowHostState::Unknown <==> state == HostState::Unknown,
{
}

/// Of a row only its state may have changed.
spec fn same_row(a: RowModel, b: RowModel) -> bool {
    b == (RowModel { state: b.state, ..a })
}

proof fn with_statuses_is(rows: Seq<RowModel>, statuses: Seq<StatusModel>, i: int, k: int)
    requires
        0 <= i < rows.len(),
    ensures
        with_statuses(rows, statuses).len() == rows.len(),
        same_row(rows[i], with_statuses(rows, statuses)[i]),
        (forall|j: int| 0 <= j < statuses.len() ==> (#[trigger] statuses[j]).host_id != rows[i].id)
            ==> with_statuses(rows, statuses)[i] == rows[i],
        0 <= k < statuses.len() && statuses[k].host_id == rows[i].id && (forall|j: int|
            k < j < statuses.len() ==> (#[trigger] statuses[j]).host_id != rows[i].id)
            ==> with_statuses(rows, statuses)[i].state == shown_state(statuses[k].state),
    decreases statuses.len(),
{
    if statuses.len() > 0 {
        let front = statuses.drop_last();
        let n = statuses.len() - 1;
        with_statuses_is(rows, front, i, k);
        assert(statuses[n] == statuses.last());
        let before = with_statuses(rows, front);
        assert(before[i].id == rows[i].id);
        if forall|j: int|
            0 <= j < statuses.len() ==> (#[trigger] statuses[j]).host_id != rows[i].id {
            assert forall|j: int| 0 <= j < front.len() implies (#[trigger] front[j]).host_id
                != rows[i].id by {
                assert(front[j] == statuses[j]);
            }
        }
        if 0 <= k < n && statuses[k].host_id == rows[i].id && (forall|j: int|
            k < j < statuses.len() ==> (#[trigger] statuses[j]).host_id != rows[i].id) {
            assert(front[k] == statuses[k]);
            assert forall|j: int| k < j < front.len() implies (#[trigger] front[j]).host_id
                != rows[i].id by {
                assert(front[j] == statuses[j]);
            }
        }
    }
}

/// Every row shows the last state that came for its host, and stays as it was where
/// none came; nothing else of it changes.
pub proof fn a_row_shows_the_last_state_of_its_host(
    rows: Seq<RowModel>,
    statuses: Seq<StatusModel>,
    i: int,
    k: int,
)
    requires
        0 <= i < rows.len(),
    ensures
        with_statuses(rows, statuses).len() == rows.len(),
        with_statuses(rows, statuses)[i] == (RowModel {
            state: with_statuses(rows, statuses)[i].state,
            ..rows[i]
        }),
        (forall|j: int| 0 <= j < statuses.len() ==> (#[trigger] statuses[j]).host_id != rows[i].id)
            ==> with_statuses(rows, statuses)[i] == rows[i],
        0 <= k < statuses.len() && statuses[k].host_id == rows[i].id && (forall|j: int|
            k < j < statuses.len() ==> (#[trigger] statuses[j]).host_id != rows[i].id)
            ==> with_statuses(rows, statuses)[i].state == shown_state(statuses[k].state),
{
    with_statuses_is(rows, statuses, i, k);
}

/// A receipt shows a host as waking exactly if its wake was accepted and it has not
/// been seen; every other row stays as it was.
pub proof fn a_receipt_shows_accepted_hosts_as_waking(
    rows: Seq<RowModel>,
    results: Seq<ResultModel>,
    online: Set<Seq<char>>,
    i: int,
)
    requires
        0 <= i < rows.len(),
    ensures
        with_receipt(rows, results, online).len() == rows.len(),
        ({
            let accepted = exists|k: int|
                0 <= k < results.len() && (#[trigger] results[k]).accepted && results[k].host_id
                    == rows[i].id;
            with_receipt(rows, results, online)[i] == if accepted && !online.contains(rows[i].id) {
                RowModel { state: RowHostState::Waking, ..rows[i] }
            } else {
                rows[i]
            }
        }),
    decreases results.len(),
{
    if results.len() > 0 {
        let front = results.drop_last();
        let n = results.len() - 1;
        a_receipt_shows_accepted_hosts_as_waking(rows, front, online, i);
        assert(results[n] == results.last());
        if exists|k: int|
            0 <= k < front.len() && (#[trigger] front[k]).accepted && front[k].host_id
                == rows[i].id {
            let k = choose|k: int|
                0 <= k < front.len() && (#[trigger] front[k]).accepted && front[k].host_id
                    == rows[i].id;
            assert(results[k].accepted && results[k].host_id == rows[i].id);
        } else {
            if exists|k: int|
                0 <= k < results.len() && (#[trigger] results[k]).accepted && results[k].host_id
                    == rows[i].id {
                let k = choose|k: int|
                    0 <= k < results.len() && (#[trigger] results[k]).accepted
                        && results[k].host_id == rows[i].id;
                if k < n {
                    assert(front[k].accepted && front[k].host_id == rows[i].id);
                }
            }
        }
    }
}

proof fn selected_ids_are(rows: Seq<RowModel>)
    ensures
        selected_ids(rows) == rows.filter(|row: RowModel| row.selected).map_values(
            |row: RowModel| row.id,
        ),
    decreases rows.len(),
{
    reveal(Seq::filter);
    if rows.len() > 0 {
        selected_ids_are(rows.drop_last());
        let front = rows.drop_last().filter(|row: RowModel| row.selected);
        if rows.last().selected {
            assert(front.push(rows.last()).map_values(|row: RowModel| row.id) =~= front.map_values(
                |row: RowModel| row.id,
            ).push(rows.last().id));
        }
    } else {
        assert(selected_ids(rows) =~= rows.filter(|row: RowModel| row.selected).map_values(
            |row: RowModel| row.id,
        ));
    }
}

/// A wake is for exactly the hosts whose rows are selected, in their order, and is
/// sent exactly if there are some, the client is there and connected, and the
/// catalogue is known.
pub proof fn the_selected_hosts_are_woken(
    view: ViewModel,
    attached: bool,
    operation_id: [u8; 16],
    boot_nonce: [u8; 16],
    now: u64,
    id: Seq<char>,
)
    requires
        now <= crate::clock::CLOCK_END,
    ensures
        ({
            let wake = view.first_wake(operation_id, boot_nonce, now);
            let selected = view.hosts.filter(|row: RowModel| row.selected);
            &&& wake.targets == selected.map_values(|row: RowModel| row.id)
            &&& wake.targets.contains(id) <==> exists|i: int|
                0 <= i < view.hosts.len() && (#[trigger] view.hosts[i]).selected && view.hosts[i].id
                    == id
            &&& wake.operation_id == operation_id && wake.boot_nonce == boot_nonce && wake.attempt
                == 1 && wake.ticket is None && !wake.receipt && !wake.finished
            &&& wake.catalog_version == view.catalog_version
            &&& wake.receipt_deadline == now + 15_000_000_000
            &&& view.wake_refusal(attached) is None <==> view.connection.phase
                == ClientConnectionPhase::Connected && attached && selected.len() > 0
                && view.catalog_version != 0
        }),
{
    selected_ids_are(view.hosts);
    let pass = |row: RowModel| row.selected;
    let selected = view.hosts.filter(pass);
    let ids = selected.map_values(|row: RowModel| row.id);
    if ids.contains(id) {
        let k = choose|k: int| 0 <= k < ids.len() && ids[k] == id;
        filtered_has(view.hosts, pass, selected[k]);
        assert(selected.contains(selected[k]));
        let i = choose|i: int| 0 <= i < view.hosts.len() && view.hosts[i] == selected[k];
        assert(view.hosts[i].selected && view.hosts[i].id == id);
    }
    if exists|i: int|
        0 <= i < view.hosts.len() && (#[trigger] view.hosts[i]).selected && view.hosts[i].id == id {
        let i = choose|i: int|
            0 <= i < view.hosts.len() && (#[trigger] view.hosts[i]).selected && view.hosts[i].id
                == id;
        filtered_has(view.hosts, pass, view.hosts[i]);
        assert(view.hosts.contains(view.hosts[i]));
        let k = choose|k: int| 0 <= k < selected.len() && selected[k] == view.hosts[i];
        assert(ids[k] == id);
    }
}

/// A catalogue lists each of its hosts once, in order, in no known state and not
/// selected; while a wake is watched the list stays as it is.
pub proof fn a_catalogue_is_listed(view: ViewModel, version: u64, hosts: Seq<Seq<char>>, i: int)
    ensures
        ({
            let after = view.catalogued(version, hosts);
            let busy = view.wake is Some && view.screen == Screen::Wake;
            &&& busy ==> after == view
            &&& !busy ==> after.catalog_version == version && after.hosts.len() == hosts.len()
                && after.host_index == 0
            &&& !busy && 0 <= i < hosts.len() ==> after.hosts[i].id == hosts[i]
                && after.hosts[i].state == RowHostState::Unknown && !after.hosts[i].selected
            &&& after.wake == view.wake && after.connection == view.connection && after.screen
                == view.screen
        }),
{
}

proof fn refused_are(results: Seq<ResultModel>, id: Seq<char>)
    ensures
        refused_ids(results).contains(id) <==> exists|i: int|
            0 <= i < results.len() && !(#[trigger] results[i]).accepted && results[i].host_id == id,
    decreases results.len(),
{
    if results.len() > 0 {
        let front = results.drop_last();
        refused_are(front, id);
        let some = refused_ids(front);
        let all = refused_ids(results);
        let n = results.len() - 1;
        if all.contains(id) {
            let k = choose|k: int| 0 <= k < all.len() && all[k] == id;
            if k < some.len() {
                assert(some[k] == id);
                let i = choose|i: int|
                    0 <= i < front.len() && !(#[trigger] front[i]).accepted && front[i].host_id
                        == id;
                assert(!results[i].accepted && results[i].host_id == id);
            } else {
                assert(!results[n].accepted && results[n].host_id == id);
            }
        }
        if exists|i: int|
            0 <= i < results.len() && !(#[trigger] results[i]).accepted && results[i].host_id
                == id {
            let i = choose|i: int|
                0 <= i < results.len() && !(#[trigger] results[i]).accepted && results[i].host_id
                    == id;
            if i < n {
                assert(!front[i].accepted && front[i].host_id == id);
                let k = choose|k: int| 0 <= k < some.len() && some[k] == id;
                assert(all[k] == id);
            } else {
                assert(all[all.len() - 1] == id);
            }
        }
    }
}

/// The receipt of the wake that is shown is taken in: its ticket and what it
/// accepted are kept, each target shows whether it was refused and whether it was
/// seen, the wake is over once its outcome is final, and given up where nothing was
/// accepted. A receipt of another wake, or attempt, changes nothing.
pub proof fn a_receipt_is_taken_in(
    view: ViewModel,
    operation_id: [u8; 16],
    attempt: u8,
    ticket: [u8; 32],
    deadline_ms: u64,
    results: Seq<ResultModel>,
    now: u64,
    i: int,
)
    requires
        now <= crate::clock::CLOCK_END,
    ensures
        ({
            let event = NewsModel::CommandExecuted {
                operation_id,
                attempt,
                retry_ticket: ticket,
                deadline_ms,
                results,
            };
            let after = view.applied(event, now);
            let own = view.wake is Some && view.wake->0.operation_id == operation_id
                && view.wake->0.attempt == attempt;
            let progress = view.wake->0.progress.received(results, now);
            let some = exists|k: int| 0 <= k < results.len() && (#[trigger] results[k]).accepted;
            let outcome = progress.outcome(id_set(view.wake->0.targets));
            let targets = view.wake->0.targets;
            &&& !own ==> after == view
            &&& own && !some ==> after.wake is None && after.screen == Screen::ClientHosts
            &&& own && some ==> {
                &&& after.wake is Some
                &&& after.wake->0.receipt && after.wake->0.ticket == Some(ticket)
                &&& after.wake->0.progress == progress
                &&& after.wake->0.targets == targets
                &&& after.screen == view.screen
                &&& after.wake->0.finished <==> view.wake->0.finished || outcome
                    == Outcome::Complete || outcome == Outcome::Partial
                &&& after.display.phase == if outcome == Outcome::Complete {
                    WakePhase::Complete
                } else if outcome == Outcome::Partial {
                    WakePhase::Partial
                } else {
                    WakePhase::Waiting
                }
            }
            &&& own ==> after.hosts == with_receipt(view.hosts, results, progress.online)
            &&& own && 0 <= i < targets.len() ==> {
                &&& after.display.online.len() == targets.len()
                &&& after.display.online[i] == progress.online.contains(targets[i])
                &&& after.display.rejected.len() == targets.len()
                &&& after.display.rejected[i] <==> exists|k: int|
                    0 <= k < results.len() && !(#[trigger] results[k]).accepted
                        && results[k].host_id == targets[i]
            }
        }),
{
    let wake = view.wake->0;
    let progress = wake.progress.received(results, now);
    if 0 <= i < wake.targets.len() {
        refused_are(results, wake.targets[i]);
    }
    if exists|k: int| 0 <= k < results.len() && (#[trigger] results[k]).accepted {
        let k = choose|k: int| 0 <= k < results.len() && (#[trigger] results[k]).accepted;
        let id = results[k].host_id;
        crate::laws::wakes::a_wake_makes_progress(wake.progress, results, now, id, id);
        assert(progress.accepted.contains(id));
        assert(!(progress.accepted =~= Set::<Seq<char>>::empty()));
    } else {
        assert forall|h: Seq<char>| !progress.accepted.contains(h) by {
            crate::laws::wakes::a_wake_makes_progress(wake.progress, results, now, h, h);
        }
        assert(progress.accepted =~= Set::<Seq<char>>::empty());
    }
}

/// A host of the wake that was seen shows as online, in its row and among the
/// targets, and the wake is over once every accepted host was seen. A sighting of
/// another wake, or of a host that was not accepted, changes nothing.
pub proof fn a_sighting_is_taken_in(
    view: ViewModel,
    operation_id: [u8; 16],
    attempt: u8,
    host: Seq<char>,
    now: u64,
    i: int,
)
    ensures
        ({
            let event = NewsModel::TargetOnline { operation_id, attempt, host_id: host };
            let after = view.applied(event, now);
            let own = view.wake is Some && view.wake->0.operation_id == operation_id
                && view.wake->0.attempt == attempt && view.wake->0.progress.accepted.contains(host);
            let progress = view.wake->0.progress.observed(host);
            let outcome = progress.outcome(id_set(view.wake->0.targets));
            &&& !own ==> after == view
            &&& own ==> {
                &&& after.wake is Some && after.wake->0.progress == progress
                &&& progress.online.contains(host)
                &&& after.wake->0.finished <==> view.wake->0.finished || outcome
                    == Outcome::Complete || outcome == Outcome::Partial
                &&& after.hosts.len() == view.hosts.len()
                &&& 0 <= i < view.hosts.len() ==> after.hosts[i] == if view.hosts[i].id == host {
                    RowModel { state: RowHostState::Online, ..view.hosts[i] }
                } else {
                    view.hosts[i]
                }
                &&& after.display.online.len() == view.wake->0.targets.len()
                &&& 0 <= i < view.wake->0.targets.len() ==> after.display.online[i]
                    == progress.online.contains(view.wake->0.targets[i])
            }
        }),
{
}

/// The wake that is shown goes on exactly while it is connected and shown and not
/// over; it is given up where its receipt does not come within its time, or its
/// minute is over for the second time, without a ticket or without a client.
pub proof fn a_shown_wake_is_given_up_in_time(view: ViewModel, attached: bool, now: u64)
    ensures
        ({
            let after = view.ticked(attached, now);
            let runs = view.wake is Some && !view.wake->0.finished && view.screen == Screen::Wake
                && view.connection.phase == ClientConnectionPhase::Connected;
            let wake = view.wake->0;
            let late = !wake.receipt && now >= wake.receipt_deadline;
            let over = wake.receipt && now >= wake.progress.deadline;
            let ends = runs && (late || (over && (wake.attempt != 1 || wake.ticket is None
                || !attached)));
            &&& ends ==> after.wake is None && after.screen == Screen::ClientHosts && after.notice is
                Some
            &&& !ends ==> after == view
            &&& view.retries(now) <==> runs && over && wake.attempt == 1 && wake.ticket is Some
        }),
{
}

proof fn kept_hosts_are(names: Seq<Seq<char>>, valid: Seq<Seq<char>>, id: Seq<char>)
    ensures
        kept_hosts(names, valid).contains(id) <==> valid.contains(id) && exists|i: int|
            0 <= i < names.len() && host_id_of(#[trigger] names[i]) == id,
        kept_hosts(names, valid).no_duplicates(),
        kept_hosts(names, valid).len() <= names.len(),
    decreases names.len(),
{
    if names.len() > 0 {
        let front = names.drop_last();
        let some = kept_hosts(front, valid);
        let all = kept_hosts(names, valid);
        let last = host_id_of(names.last());
        let n = names.len() - 1;
        kept_hosts_are(front, valid, id);
        kept_hosts_are(front, valid, last);
        crate::policy::push_contains(some, last);
        assert(names[n] == names.last());
        if exists|i: int| 0 <= i < front.len() && host_id_of(#[trigger] front[i]) == id {
            let i = choose|i: int| 0 <= i < front.len() && host_id_of(#[trigger] front[i]) == id;
            assert(host_id_of(names[i]) == id);
        }
        if exists|i: int| 0 <= i < names.len() && host_id_of(#[trigger] names[i]) == id {
            let i = choose|i: int| 0 <= i < names.len() && host_id_of(#[trigger] names[i]) == id;
            if i < n {
                assert(host_id_of(front[i]) == id);
            }
        }
        if all.len() > some.len() {
            assert forall|a: int, b: int| 0 <= a < all.len() && 0 <= b < all.len() && a != b implies all[a]
                != all[b] by {
                if a < some.len() && b < some.len() {
                    assert(some[a] != some[b]);
                } else if a < some.len() {
                    assert(some.contains(some[a]));
                } else {
                    assert(some.contains(some[b]));
                }
            }
        }
    }
}

/// When hosts are gone a client keeps exactly those of its hosts that are still
/// there, each once; its identifier and its key stay.
pub proof fn a_client_keeps_the_hosts_that_are_left(
    clients: Seq<AllowedModel>,
    ids: Seq<Seq<char>>,
    i: int,
    id: Seq<char>,
)
    requires
        0 <= i < clients.len(),
    ensures
        reconciled(clients, ids).len() == clients.len(),
        reconciled(clients, ids)[i].client_id == clients[i].client_id,
        reconciled(clients, ids)[i].static_public_key == clients[i].static_public_key,
        reconciled(clients, ids)[i].allowed_hosts.no_duplicates(),
        reconciled(clients, ids)[i].allowed_hosts.contains(id) <==> ids.contains(id) && exists|
            k: int,
        |
            0 <= k < clients[i].allowed_hosts.len() && host_id_of(
                #[trigger] clients[i].allowed_hosts[k],
            ) == id,
{
    kept_hosts_are(clients[i].allowed_hosts, ids, id);
}

proof fn shown_clients_are_filtered(clients: Seq<AllowedModel>, rows: Seq<ClientRowModel>)
    ensures
        shown_clients(clients, rows) == clients.filter(|c: AllowedModel| is_shown(c, rows)),
    decreases clients.len(),
{
    reveal(Seq::filter);
    if clients.len() > 0 {
        shown_clients_are_filtered(clients.drop_last(), rows);
    }
}

/// A client stays enrolled exactly if its row is still shown, whatever the case of
/// its letters; those that stay keep their order.
pub proof fn a_client_stays_exactly_if_shown(
    clients: Seq<AllowedModel>,
    rows: Seq<ClientRowModel>,
    client: AllowedModel,
)
    ensures
        shown_clients(clients, rows).contains(client) <==> clients.contains(client) && exists|
            i: int,
        |
            0 <= i < rows.len() && lowered((#[trigger] rows[i]).label) == lowered(client.client_id),
        shown_clients(clients, rows) == clients.filter(|c: AllowedModel| is_shown(c, rows)),
{
    shown_clients_are_filtered(clients, rows);
    filtered_has(clients, |c: AllowedModel| is_shown(c, rows), client);
}

proof fn chosen_are(rows: Seq<RowModel>, selected: Seq<bool>, id: Seq<char>)
    ensures
        chosen_ids(rows, selected).contains(id) <==> exists|i: int|
            0 <= i < rows.len() && i < selected.len() && selected[i] && (#[trigger] rows[i]).id
                == id,
    decreases rows.len(),
{
    if rows.len() > 0 {
        let front = rows.drop_last();
        chosen_are(front, selected, id);
        let some = chosen_ids(front, selected);
        let all = chosen_ids(rows, selected);
        let n = rows.len() - 1;
        assert(rows[n] == rows.last());
        if all.contains(id) {
            let k = choose|k: int| 0 <= k < all.len() && all[k] == id;
            if k < some.len() {
                assert(some[k] == id);
                let i = choose|i: int|
                    0 <= i < front.len() && i < selected.len() && selected[i] && (
                    #[trigger] front[i]).id == id;
                assert(rows[i].id == id);
            } else {
                assert(rows[n].id == id);
            }
        }
        if exists|i: int|
            0 <= i < rows.len() && i < selected.len() && selected[i] && (#[trigger] rows[i]).id
                == id {
            let i = choose|i: int|
                0 <= i < rows.len() && i < selected.len() && selected[i] && (#[trigger] rows[i]).id
                    == id;
            if i < n {
                assert(front[i].id == id);
                let k = choose|k: int| 0 <= k < some.len() && some[k] == id;
                assert(all[k] == id);
            } else {
                assert(all[all.len() - 1] == id);
            }
        }
    }
}

/// A new credential is issued for a new client: the settings gain exactly that
/// client, under the digest of its key and with exactly the hosts that were chosen,
/// and the credential holds its keys, the server's key and the shared secret.
pub proof fn a_new_credential_enrols_its_client(
    desk: DeskModel,
    place: OutputPlace,
    secret: Seq<u8>,
    private: Seq<u8>,
    client: Seq<u8>,
    id: Seq<char>,
)
    ensures
        ({
            let (after, issued) = desk.newly_issued(place, secret, private, client);
            let public = crate::crypto::x25519_public(client);
            &&& issued is Refused || issued is New
            &&& issued is New ==> {
                let config = issued->New_config;
                let bundle = issued->bundle;
                let clients = config.security.allowed_clients;
                let before = desk.config.security.allowed_clients;
                &&& place == OutputPlace::Free
                &&& desk.client_acl.len() < 128
                &&& !is_taken(desk.client_acl, fingerprint_of(public))
                &&& clients.len() == before.len() + 1
                &&& clients.drop_last() == before
                &&& clients.last().client_id == fingerprint_of(public)
                &&& clients.last().static_public_key == crate::config::key_text(public)
                &&& clients.last().allowed_hosts.contains(id) <==> exists|i: int|
                    0 <= i < desk.view.hosts.len() && i < desk.issue.selected.len()
                        && desk.issue.selected[i] && (#[trigger] desk.view.hosts[i]).id == id
                &&& bundle.version == 1
                &&& bundle.client_id == fingerprint_of(public)
                &&& bundle.static_private_key == crate::config::key_text(client)
                &&& bundle.static_public_key == crate::config::key_text(public)
                &&& bundle.shared_secret == config.security.shared_secret
                &&& bundle.pinned_server_static_key == config.security.server_static_public_key
                &&& bundle.custom_headers == config.security.custom_headers
                &&& bundle.device_label == trimmed(desk.issue.label)
                &&& config.hosts == desk.config.hosts && config.server == desk.config.server
            }
            &&& desk.client_acl.len() < 128 && desk.config.identity_fault() is None
                && crate::config::key_read(crate::config::key_text(public)) is Ok && !is_taken(
                desk.client_acl,
                fingerprint_of(public),
            ) && place == OutputPlace::Free ==> issued is New
        }),
{
    chosen_are(desk.view.hosts, desk.issue.selected, id);
    let (after, issued) = desk.newly_issued(place, secret, private, client);
    if issued is New {
        let clients = issued->New_config.security.allowed_clients;
        assert(clients.drop_last() =~= desk.config.security.allowed_clients);
    }
}

/// The row of a host shows its identifier, its name or else its hostname, its card
/// and its address.
pub proof fn a_row_shows_its_host(host: HostModel)
    ensures
        row_of(host).id == lowered(trimmed(host.hostname)),
        row_of(host).mac == trimmed(host.mac),
        row_of(host).ip == trimmed(host.ip),
        row_of(host).wol_ipv6_interface == host.wol_ipv6_interface,
        trimmed(host.display_name).len() > 0 ==> row_of(host).name == trimmed(host.display_name),
        trimmed(host.display_name).len() == 0 ==> row_of(host).name == trimmed(host.hostname),
        row_of(host).state == RowHostState::Unknown,
        !row_of(host).selected,
{
}

proof fn the_first_host_with_a_name(hosts: Seq<HostModel>, id: Seq<char>, i: int)
    requires
        0 <= i < hosts.len(),
        host_id_of(hosts[i].hostname) == id,
        forall|j: int| 0 <= j < i ==> host_id_of((#[trigger] hosts[j]).hostname) != id,
    ensures
        host_named(hosts, id) == Some(hosts[i]),
    decreases i,
{
    if i > 0 {
        let rest = hosts.drop_first();
        assert(host_id_of(hosts[0].hostname) != id);
        assert(rest[i - 1] == hosts[i]);
        assert forall|j: int| 0 <= j < i - 1 implies host_id_of((#[trigger] rest[j]).hostname)
            != id by {
            assert(rest[j] == hosts[j + 1]);
        }
        the_first_host_with_a_name(rest, id, i - 1);
    }
}

/// A row that is saved keeps what the page does not show of its host: the ports and
/// the time of the settings with the same identifier; a new host gets port 9, a
/// second, and no port of its own.
pub proof fn a_saved_row_keeps_its_ports(row: RowModel, before: Seq<HostModel>, i: int)
    ensures
        host_of(row, before).hostname == trimmed(row.id),
        host_of(row, before).mac == trimmed(row.mac),
        host_of(row, before).ip == trimmed(row.ip),
        host_of(row, before).wol_ipv6_interface == row.wol_ipv6_interface,
        0 <= i < before.len() && host_id_of(before[i].hostname) == host_id_of(row.id) && (forall|
            j: int,
        |
            0 <= j < i ==> host_id_of((#[trigger] before[j]).hostname) != host_id_of(row.id))
            ==> host_of(row, before).wol_port == before[i].wol_port && host_of(
            row,
            before,
        ).probe_timeout_ms == before[i].probe_timeout_ms && host_of(row, before).probe_port
            == before[i].probe_port,
        (forall|j: int|
            0 <= j < before.len() ==> host_id_of((#[trigger] before[j]).hostname) != host_id_of(
                row.id,
            )) ==> host_of(row, before).wol_port == 9 && host_of(row, before).probe_timeout_ms
            == 1000 && host_of(row, before).probe_port == 0,
{
    if 0 <= i < before.len() && host_id_of(before[i].hostname) == host_id_of(row.id) && (forall|
        j: int,
    |
        0 <= j < i ==> host_id_of((#[trigger] before[j]).hostname) != host_id_of(row.id)) {
        the_first_host_with_a_name(before, host_id_of(row.id), i);
    }
    if forall|j: int|
        0 <= j < before.len() ==> host_id_of((#[trigger] before[j]).hostname) != host_id_of(row.id) {
        no_host_with_a_name(before, host_id_of(row.id));
    }
}

proof fn no_host_with_a_name(hosts: Seq<HostModel>, id: Seq<char>)
    requires
        forall|j: int| 0 <= j < hosts.len() ==> host_id_of((#[trigger] hosts[j]).hostname) != id,
    ensures
        host_named(hosts, id) is None,
    decreases hosts.len(),
{
    if hosts.len() > 0 {
        let rest = hosts.drop_first();
        assert(host_id_of(hosts[0].hostname) != id);
        assert forall|j: int| 0 <= j < rest.len() implies host_id_of((#[trigger] rest[j]).hostname)
            != id by {
            assert(rest[j] == hosts[j + 1]);
        }
        no_host_with_a_name(rest, id);
    }
}

/// What is pointed at stays in the list, and where it was if it can.
pub proof fn a_pointer_stays_in_the_list(index: usize, len: nat)
    requires
        len <= usize::MAX,
    ensures
        len > 0 ==> kept_index(index, len) < len,
        index < len ==> kept_index(index, len) == index,
        index >= len && len > 0 ==> kept_index(index, len) == len - 1,
        len == 0 ==> kept_index(index, len) == 0,
{
}

/// Of the log the last two hundred lines are kept, the newest last.
pub proof fn the_newest_lines_are_kept(logs: Seq<LogModel>, entry: LogModel, i: int)
    ensures
        kept_logs(logs.push(entry)).last() == entry,
        kept_logs(logs).len() == if logs.len() < 200 {
            logs.len()
        } else {
            200
        },
        0 <= i < kept_logs(logs).len() ==> kept_logs(logs)[i] == logs[logs.len() - kept_logs(
            logs,
        ).len() + i],
{
}

/// A server that was started runs once it listens; one whose thread is over has
/// failed, unless it was stopped, and has no connections.
pub proof fn a_phase_is_what_the_server_does(desk: DeskModel, listening: bool, finished: bool)
    ensures
        ({
            let after = desk.refreshed(listening, finished);
            &&& !finished && desk.started && listening ==> after.phase == ServerPhase::Running
            &&& !finished && !(desk.started && listening) ==> after.phase == desk.phase
            &&& !finished ==> after.started == desk.started && after.active_connections
                == desk.active_connections
            &&& finished ==> !after.started && after.active_connections == 0
            &&& finished && desk.phase == ServerPhase::Stopped && !(desk.started && listening)
                ==> after.phase == ServerPhase::Stopped
            &&& finished && desk.phase != ServerPhase::Stopped ==> after.phase
                == ServerPhase::Failed
            &&& after.logs == desk.logs && after.config == desk.config && after.screen
                == desk.screen
        }),
{
}

} // verus!
