//! When a server starts, and what becomes of it when its settings change.

use crate::config::{
    key_read, normal_ids, secret_read, AllowedClient, AppConfig, ClientConfig, ServerConfig,
};
use crate::net::{ip_literal, v4_octets, IpModel};
use crate::policy::{access_of, granted, id_set};
use crate::protocol::{header_models, headers_fault};
use crate::security::{AllowedClientAuth, ServerHandshakeConfig};
use crate::server::{
    acl_fault, bind_models, binds_of, find_name, handshake_fault, is_server_only, next_generation,
    next_version, refreshed, runtime_fault, start_fault, Overrides, PolicyChange, ServerRuntime,
};
use crate::snapshot::{entry_ids, Snapshot};
use crate::text::{lowered, texts, trimmed};
use vstd::prelude::*;

verus! {

/// Settings are those of a server alone exactly if they name nothing of a client.
pub proof fn settings_of_a_server_name_no_client(client: ClientConfig)
    ensures
        is_server_only(client) <==> trimmed(client.address@).len() + trimmed(
            client.client_id@,
        ).len() + trimmed(client.static_private_key@).len() + trimmed(
            client.static_public_key@,
        ).len() + trimmed(client.pinned_server_static_key@).len() == 0,
{
}

/// The place is the first, from another on, whose client has the name.
pub open spec fn is_first_named(
    clients: Seq<AllowedClientAuth>,
    name: Seq<char>,
    k: int,
    i: int,
) -> bool {
    &&& k <= i < clients.len()
    &&& lowered(clients[i].client_id@) == name
    &&& forall|j: int| k <= j < i ==> lowered((#[trigger] clients[j]).client_id@) != name
}

#[verifier::spinoff_prover]
proof fn a_name_is_found_first(clients: Seq<AllowedClientAuth>, name: Seq<char>, k: int)
    requires
        0 <= k <= clients.len(),
    ensures
        find_name(clients, name, k) is None ==> forall|j: int|
            k <= j < clients.len() ==> lowered((#[trigger] clients[j]).client_id@) != name,
        find_name(clients, name, k) is Some ==> is_first_named(
            clients,
            name,
            k,
            find_name(clients, name, k)->0,
        ),
    decreases clients.len() - k,
{
    if k < clients.len() && lowered(clients[k].client_id@) != name {
        a_name_is_found_first(clients, name, k + 1);
    }
}

/// The client of the settings is admitted by the handshake under its own name, with
/// its own key, to its own hosts.
pub open spec fn is_admitted_alike(
    configured: AllowedClient,
    clients: Seq<AllowedClientAuth>,
) -> bool {
    exists|i: int|
        {
            &&& #[trigger] is_first_named(clients, lowered(configured.client_id@), 0, i)
            &&& key_read(configured.static_public_key@) == Ok::<Seq<u8>, Seq<char>>(
                clients[i].static_public_key@,
            )
            &&& id_set(texts(clients[i].allowed_hosts@)) == id_set(
                normal_ids(texts(configured.allowed_hosts@)),
            )
        }
}

#[verifier::spinoff_prover]
proof fn one_is_admitted_alike(configured: AllowedClient, clients: Seq<AllowedClientAuth>)
    ensures
        is_admitted_alike(configured, clients) <==> ({
            let found = find_name(clients, lowered(configured.client_id@), 0);
            found is Some && key_read(configured.static_public_key@) == Ok::<Seq<u8>, Seq<char>>(
                clients[found->0].static_public_key@,
            ) && id_set(texts(clients[found->0].allowed_hosts@)) == id_set(
                normal_ids(texts(configured.allowed_hosts@)),
            )
        }),
{
    let name = lowered(configured.client_id@);
    let found = find_name(clients, name, 0);
    a_name_is_found_first(clients, name, 0);
    if is_admitted_alike(configured, clients) {
        let i = choose|i: int|
            {
                &&& #[trigger] is_first_named(clients, name, 0, i)
                &&& key_read(configured.static_public_key@) == Ok::<Seq<u8>, Seq<char>>(
                    clients[i].static_public_key@,
                )
                &&& id_set(texts(clients[i].allowed_hosts@)) == id_set(
                    normal_ids(texts(configured.allowed_hosts@)),
                )
            };
        assert(lowered(clients[i].client_id@) == name);
        assert(found is Some);
        let f = found->0;
        assert(lowered(clients[f].client_id@) == name);
        assert(f == i);
    }
}

#[verifier::spinoff_prover]
proof fn the_rest_are_admitted_alike(
    configured: Seq<AllowedClient>,
    clients: Seq<AllowedClientAuth>,
    k: int,
)
    requires
        0 <= k <= configured.len(),
    ensures
        acl_fault(configured, clients, k) is None <==> forall|i: int|
            k <= i < configured.len() ==> is_admitted_alike(#[trigger] configured[i], clients),
    decreases configured.len() - k,
{
    if k < configured.len() {
        the_rest_are_admitted_alike(configured, clients, k + 1);
        one_is_admitted_alike(configured[k], clients);
        if acl_fault(configured, clients, k) is None {
            assert forall|i: int| k <= i < configured.len() implies is_admitted_alike(
                #[trigger] configured[i],
                clients,
            ) by {
                if i > k {
                    assert(acl_fault(configured, clients, k + 1) is None);
                }
            }
        } else if is_admitted_alike(configured[k], clients) {
            assert(acl_fault(configured, clients, k + 1) is Some);
            let i = choose|i: int|
                k + 1 <= i < configured.len() && !is_admitted_alike(
                    #[trigger] configured[i],
                    clients,
                );
            assert(!is_admitted_alike(configured[i], clients));
        } else {
            assert(!is_admitted_alike(configured[k], clients));
        }
    }
}

/// A handshake admits the clients of the settings exactly if it admits each of them
/// under its name, with its key, to its hosts.
pub proof fn an_access_list_agrees_exactly_if_each_entry_does(
    configured: Seq<AllowedClient>,
    clients: Seq<AllowedClientAuth>,
)
    ensures
        acl_fault(configured, clients, 0) is None <==> forall|i: int|
            0 <= i < configured.len() ==> is_admitted_alike(#[trigger] configured[i], clients),
{
    the_rest_are_admitted_alike(configured, clients, 0);
}

/// A server runs exactly if its settings are valid and of a server alone, and its
/// handshake has the secret, the key, the clock, the clients and the headers of them.
pub proof fn a_server_runs_exactly_if_its_handshake_agrees(
    config: AppConfig,
    handshake: ServerHandshakeConfig,
)
    ensures
        runtime_fault(config, handshake) is None <==> {
            let clients = config.security.allowed_clients@;
            let ours = header_models(config.security.custom_headers@);
            let theirs = header_models(handshake.headers@);
            &&& config.fault() is None
            &&& is_server_only(config.client)
            &&& !crate::octets::is_zero(handshake.psk@)
            &&& secret_read(config.security.shared_secret@) == Ok::<Seq<u8>, Seq<char>>(
                handshake.psk@,
            )
            &&& key_read(config.security.server_static_public_key@) == Ok::<Seq<u8>, Seq<char>>(
                handshake.identity.public@,
            )
            &&& handshake.clock_skew == config.security.clock_skew_seconds * 1_000_000_000
            &&& handshake.allowed_clients@.len() == clients.len()
            &&& forall|i: int|
                0 <= i < clients.len() ==> is_admitted_alike(
                    #[trigger] clients[i],
                    handshake.allowed_clients@,
                )
            &&& headers_fault(ours) is None
            &&& headers_fault(theirs) is None
            &&& ours.to_multiset() == theirs.to_multiset()
        },
{
    the_rest_are_admitted_alike(
        config.security.allowed_clients@,
        handshake.allowed_clients@,
        0,
    );
}

/// A server is started exactly if its settings are valid, before and after what the
/// command line says, and of a server alone, and its keys go together.
pub proof fn a_server_starts_exactly_if_its_settings_are_sound(config: AppConfig, out: AppConfig)
    ensures
        start_fault(config, out) is None <==> config.fault() is None && is_server_only(
            config.client,
        ) && out.fault() is None && handshake_fault(out) is None,
        handshake_fault(out) is None <==> {
            let private = key_read(out.security.server_static_private_key@);
            let public = key_read(out.security.server_static_public_key@);
            &&& private is Ok
            &&& public is Ok
            &&& public->Ok_0 == crate::crypto::x25519_public(private->Ok_0)
            &&& headers_fault(header_models(out.security.custom_headers@)) is None
        },
{
}

/// A server listens at its port, at the address of its settings, and at the one for
/// IPv4 before it where it listens at both.
pub proof fn a_server_listens_at_its_addresses(server: ServerConfig, i: int)
    ensures
        server.dual_stack ==> binds_of(server).len() == 2,
        !server.dual_stack ==> binds_of(server).len() == 1,
        0 <= i < binds_of(server).len() ==> binds_of(server)[i].1 == server.port,
        ip_literal(trimmed(server.bind_address@)) is Some ==> binds_of(server).last().0
            == ip_literal(trimmed(server.bind_address@))->0,
        server.dual_stack && v4_octets(trimmed(server.bind_address_v4@)) is Some ==> binds_of(
            server,
        )[0].0 == IpModel::V4(v4_octets(trimmed(server.bind_address_v4@))->0),
{
}

/// The command line replaces the address and the port that it names, and nothing else;
/// with an address for IPv4 the server listens at that one alone.
pub proof fn the_command_line_replaces_what_it_names(
    overrides: Overrides,
    server: ServerConfig,
    out: ServerConfig,
)
    requires
        overrides.applied(server, out),
    ensures
        overrides.bind is None ==> out.bind_address@ == server.bind_address@ && out.dual_stack
            == server.dual_stack,
        overrides.bind is Some ==> out.bind_address@ == trimmed(overrides.bind->0@),
        overrides.bind is Some && v4_octets(trimmed(overrides.bind->0@)) is Some
            ==> !out.dual_stack,
        overrides.bind is Some && v4_octets(trimmed(overrides.bind->0@)) is None
            ==> out.dual_stack == server.dual_stack,
        overrides.port is None ==> out.port == server.port,
        overrides.port is Some ==> out.port == overrides.port->0,
        out.bind_address_v4@ == server.bind_address_v4@,
{
}

/// A catalogue that changes gets another version, never zero; every change of the
/// clients is counted.
pub proof fn a_change_gets_another_version(old_version: u64, new_version: u64, generation: u64)
    ensures
        next_version(old_version, new_version) != old_version,
        new_version != 0 ==> next_version(old_version, new_version) != 0,
        new_version != old_version ==> next_version(old_version, new_version) == new_version,
        generation < u64::MAX ==> next_generation(generation) == generation + 1,
        generation == u64::MAX ==> next_generation(generation) == u64::MAX,
{
}

/// Settings that no longer belong to the server shut everybody out; those that do let
/// in exactly whom they list, at once. What the server remembers stays in every case.
pub proof fn new_settings_take_effect(
    before: ServerRuntime,
    file: AppConfig,
    out: AppConfig,
    after: ServerRuntime,
    change: PolicyChange,
    key: [u8; 32],
)
    requires
        refreshed(before, file, out, after, change),
    ensures
        ({
            let same = file.fault() is None && out.fault() is None && is_server_only(file.client)
                && secret_read(file.security.shared_secret@) == Ok::<Seq<u8>, Seq<char>>(
                before.handshake.psk@,
            ) && key_read(file.security.server_static_public_key@) == Ok::<Seq<u8>, Seq<char>>(
                before.handshake.identity.public@,
            ) && headers_fault(header_models(file.security.custom_headers@)) is None
                && header_models(file.security.custom_headers@).to_multiset() == header_models(
                before.snapshot.headers@,
            ).to_multiset();
            let moved = binds_of(out.server) != bind_models(before.snapshot.bind_addrs@);
            &&& !same <==> change == PolicyChange::Revoked || change == PolicyChange::StillRevoked
            &&& change == PolicyChange::Revoked ==> before.policy.source_healthy
            &&& change == PolicyChange::StillRevoked ==> !before.policy.source_healthy
            &&& !same ==> access_of(after.policy.clients@, key) is None && after.snapshot
                == before.snapshot && !after.policy.source_healthy
            &&& same ==> access_of(after.policy.clients@, key) == granted(
                file.security.allowed_clients@,
                key,
            ) && after.policy.source_healthy
            &&& same && moved <==> change == PolicyChange::RestartRequired
            &&& same && moved ==> after.restart_required && after.snapshot == before.snapshot
            &&& same && !moved ==> {
                &&& entry_ids(after.snapshot.hosts@) == crate::config::host_ids_of(file.hosts@)
                &&& after.snapshot.max_requests_per_minute == file.security.max_requests_per_minute
                &&& after.snapshot.clock_skew == file.security.clock_skew_seconds * 1_000_000_000
                &&& bind_models(after.snapshot.bind_addrs@) == binds_of(out.server)
            }
            &&& after.books == before.books && after.replay_cache == before.replay_cache
                && after.request_rates == before.request_rates && after.handshake_rates
                == before.handshake_rates && after.metrics == before.metrics && after.overrides
                == before.overrides && after.ip_connections == before.ip_connections
                && after.client_connections == before.client_connections
        }),
{
}

/// A server bounds what it does at once.
pub proof fn a_server_is_bounded(runtime: ServerRuntime)
    ensures
        runtime.is_bounded() <==> {
            &&& runtime.metrics.connections.limit == 64
            &&& runtime.handshakes.limit == 16
            &&& runtime.probe_slots.limit == 8
            &&& runtime.pending_handshakes.maximum == 2
            &&& runtime.ip_connections.maximum == 8
            &&& runtime.client_connections.maximum == 4
        },
{
}

/// The catalogue of a server names each of its hosts once, in order, under a version
/// that is not zero.
pub proof fn a_catalogue_names_each_host_once(snapshot: Snapshot, id: Seq<char>, i: int, j: int)
    requires
        snapshot.wf(),
    ensures
        ({
            let shown = crate::protocol::summary_models(snapshot.summaries@);
            &&& snapshot.hosts@.len() <= 64
            &&& shown.len() == snapshot.hosts@.len()
            &&& shown.contains(id) <==> exists|k: int|
                0 <= k < snapshot.hosts@.len() && (#[trigger] snapshot.hosts@[k]).id@ == id
            &&& 0 <= i < j < shown.len() ==> crate::text::before(shown[i], shown[j])
            &&& snapshot.catalog_version != 0
        }),
{
    let ids = entry_ids(snapshot.hosts@);
    let shown = crate::protocol::summary_models(snapshot.summaries@);
    crate::laws::words::sorting_orders_and_keeps(ids, i, j);
    assert(shown.to_multiset() == ids.to_multiset());
    shown.to_multiset_ensures();
    ids.to_multiset_ensures();
    assert(shown.contains(id) <==> shown.to_multiset().count(id) > 0);
    assert(ids.contains(id) <==> ids.to_multiset().count(id) > 0);
    if ids.contains(id) {
        let k = choose|k: int| 0 <= k < ids.len() && ids[k] == id;
        assert(snapshot.hosts@[k].id@ == id);
    }
    if exists|k: int| 0 <= k < snapshot.hosts@.len() && (#[trigger] snapshot.hosts@[k]).id@ == id {
        let k = choose|k: int|
            0 <= k < snapshot.hosts@.len() && (#[trigger] snapshot.hosts@[k]).id@ == id;
        assert(ids[k] == id);
    }
    if 0 <= i < j < shown.len() {
        if !crate::text::before(shown[i], shown[j]) {
            ids.lemma_multiset_has_no_duplicates();
            shown.lemma_multiset_has_no_duplicates_conv();
            crate::text::before_is_strict(shown[i], shown[j]);
        }
    }
}

} // verus!
