//! What the outcome of an operation says of what went into it.

use crate::cli::{is_wake_command, RowState, WakeSessionModel};
use crate::client::{
    asks, code_name, error_text, is_reaction, list_is_open, ClientCommand,
    ClientConnectionErrorCode, Reaction, ReactionModel, RequestModel, StatusAsk,
};
use crate::config::{
    is_client_settings, is_fresh, is_some_key, key_read, key_text, normal_ids, same_but_secret,
    same_but_server_keys, secret_read, AllowedClient, AppConfig,
};
use crate::credential::{label_of, with_credential, CredentialBundle};
use crate::logging::Level;
use crate::policy::same_grants;
use crate::protocol::{header_models, ClientEnvelope, ErrorCode, HeaderModel};
use crate::request::{result_of, WakeOutcome};
use crate::security::{all_enrolled, AllowedClientAuth, ServerHandshakeConfig};
use crate::server::{is_handshake_of, is_snapshot_of, ServerRuntime};
use crate::server_view::{Draft, ShownModel};
use crate::session::{same_but_clients, same_but_peers, same_but_requests, same_limits};
use crate::snapshot::Snapshot;
use crate::text::{lowered, texts, trimmed};
use vstd::prelude::*;

verus! {

/// The clients of a handshake are those of the settings, one for one and in their order,
/// each with its name, its key and exactly its hosts.
pub proof fn enrolled_clients_are_those_of_the_settings(
    list: Seq<AllowedClientAuth>,
    clients: Seq<AllowedClient>,
    i: int,
    id: Seq<char>,
)
    requires
        all_enrolled(list, clients),
    ensures
        list.len() == clients.len(),
        0 <= i < clients.len() ==> {
            &&& list[i].client_id@ == lowered(trimmed(clients[i].client_id@))
            &&& key_read(clients[i].static_public_key@) == Ok::<Seq<u8>, Seq<char>>(
                list[i].static_public_key@,
            )
            &&& texts(list[i].allowed_hosts@).contains(id) <==> normal_ids(
                texts(clients[i].allowed_hosts@),
            ).contains(id)
            &&& texts(list[i].allowed_hosts@).no_duplicates()
        },
{
    if 0 <= i < clients.len() {
        assert(crate::security::is_enrolled(list[i], clients[i]));
    }
}

/// New settings listen at every address, on port 45890, allow thirty seconds and thirty
/// requests a minute, and have no client, no host and no key.
pub proof fn new_settings_are_empty(config: AppConfig)
    requires
        is_fresh(config),
    ensures
        config.config_version == 1,
        config.server.bind_address@ == "::"@,
        config.server.bind_address_v4@ == "0.0.0.0"@,
        config.server.port == 45890,
        config.server.dual_stack,
        config.security.clock_skew_seconds == 30,
        config.security.max_requests_per_minute == 30,
        config.security.custom_headers@.len() == 0,
        config.security.allowed_clients@.len() == 0,
        config.security.server_static_private_key@.len() == 0,
        config.security.server_static_public_key@.len() == 0,
        !config.security.allow_unregistered_clients,
        !config.security.allow_public_targets,
        config.hosts@.len() == 0,
        config.client.address@.len() == 0,
        config.client.port == 45890,
        config.client.client_id@.len() == 0,
        config.client.static_private_key@.len() == 0,
        config.client.pinned_server_static_key@.len() == 0,
{
}

/// What is written of a client's settings holds no secret, no key, no host and no
/// client; its endpoint and its limits stay.
pub proof fn client_settings_hold_no_secret(settings: AppConfig, config: AppConfig)
    requires
        is_client_settings(settings, config),
    ensures
        settings.config_version == 1,
        settings.security.shared_secret@.len() == 0,
        settings.security.server_static_private_key@.len() == 0,
        settings.security.server_static_public_key@.len() == 0,
        settings.security.allowed_clients@.len() == 0,
        settings.hosts@.len() == 0,
        settings.client.static_private_key@.len() == 0,
        settings.client.static_public_key@.len() == 0,
        settings.client.pinned_server_static_key@.len() == 0,
        settings.client.address == config.client.address,
        settings.client.port == config.client.port,
        settings.server == config.server,
        settings.security.clock_skew_seconds == config.security.clock_skew_seconds,
        settings.security.max_requests_per_minute == config.security.max_requests_per_minute,
        settings.security.custom_headers@ == config.security.custom_headers@,
        trimmed(config.client.client_id@).len() > 0 ==> settings.client.client_id@ == lowered(
            trimmed(config.client.client_id@),
        ),
{
}

/// A new secret, or new keys of a server, change nothing else of the settings.
pub proof fn a_new_secret_changes_nothing_else(after: AppConfig, before: AppConfig)
    ensures
        same_but_secret(after, before) || same_but_server_keys(after, before) ==> {
            &&& after.config_version == before.config_version
            &&& after.server == before.server
            &&& after.hosts == before.hosts
            &&& after.client == before.client
            &&& after.security.allowed_clients == before.security.allowed_clients
            &&& after.security.custom_headers == before.security.custom_headers
            &&& after.security.clock_skew_seconds == before.security.clock_skew_seconds
            &&& after.security.max_requests_per_minute == before.security.max_requests_per_minute
        },
        same_but_secret(after, before) ==> after.security.server_static_private_key
            == before.security.server_static_private_key && after.security.server_static_public_key
            == before.security.server_static_public_key,
        same_but_server_keys(after, before) ==> after.security.shared_secret
            == before.security.shared_secret,
{
}

/// A key that was drawn is read back as the bytes that were drawn.
pub proof fn a_drawn_key_is_one(text: Seq<char>)
    requires
        is_some_key(text),
    ensures
        exists|bytes: [u8; 32]| text == key_text(#[trigger] bytes@),
        "hex:"@.is_prefix_of(text),
{
    let bytes = choose|bytes: [u8; 32]| text == key_text(#[trigger] bytes@);
    reveal_strlit("hex:");
    assert(text.subrange(0, 4) =~= "hex:"@);
}

/// A credential gives the settings its secret, its headers and the keys of its client,
/// and changes nothing else.
pub proof fn a_credential_gives_its_keys(
    after: AppConfig,
    before: AppConfig,
    bundle: CredentialBundle,
    label: Seq<char>,
)
    ensures
        with_credential(after, before, bundle) ==> {
            &&& after.security.shared_secret == bundle.shared_secret
            &&& after.security.custom_headers == bundle.custom_headers
            &&& after.client.client_id@ == bundle.client_id@
            &&& after.client.static_private_key == bundle.static_private_key
            &&& after.client.static_public_key == bundle.static_public_key
            &&& after.client.pinned_server_static_key == bundle.pinned_server_static_key
            &&& after.client.address == before.client.address && after.client.port
                == before.client.port
            &&& after.server == before.server && after.hosts == before.hosts
            &&& after.security.allowed_clients == before.security.allowed_clients
            &&& after.security.clock_skew_seconds == before.security.clock_skew_seconds
            &&& after.security.server_static_private_key
                == before.security.server_static_private_key
        },
        trimmed(label).len() == 0 <==> label_of(label) is None,
        trimmed(label).len() > 0 ==> label_of(label) == Some(trimmed(label)),
{
}

/// The snapshot of a server is that of its settings: its listeners, headers, hosts and
/// limits.
pub proof fn a_snapshot_is_that_of_its_settings(snapshot: Snapshot, config: AppConfig, i: int)
    requires
        is_snapshot_of(snapshot, config),
    ensures
        snapshot.wf(),
        crate::server::bind_models(snapshot.bind_addrs@) == crate::server::binds_of(config.server),
        snapshot.dual_stack == config.server.dual_stack,
        header_models(snapshot.headers@).to_multiset() == header_models(
            config.security.custom_headers@,
        ).to_multiset(),
        snapshot.hosts@.len() == config.hosts@.len(),
        0 <= i < config.hosts@.len() ==> snapshot.hosts@[i].config == config.hosts@[i]
            && snapshot.hosts@[i].id@ == lowered(trimmed(config.hosts@[i].hostname@)),
        snapshot.max_requests_per_minute == config.security.max_requests_per_minute,
        snapshot.clock_skew == config.security.clock_skew_seconds * 1_000_000_000,
{
    if 0 <= i < config.hosts@.len() {
        assert(crate::snapshot::entry_ids(snapshot.hosts@)[i] == crate::config::host_ids_of(
            config.hosts@,
        )[i]);
    }
}

/// The handshake of a server has the secret, the keys, the clock, the headers and the
/// clients of its settings.
pub proof fn a_handshake_is_that_of_its_settings(
    handshake: ServerHandshakeConfig,
    config: AppConfig,
)
    requires
        is_handshake_of(handshake, config),
    ensures
        secret_read(config.security.shared_secret@) == Ok::<Seq<u8>, Seq<char>>(handshake.psk@),
        key_read(config.security.server_static_private_key@) == Ok::<Seq<u8>, Seq<char>>(
            handshake.identity.private@,
        ),
        key_read(config.security.server_static_public_key@) == Ok::<Seq<u8>, Seq<char>>(
            handshake.identity.public@,
        ),
        handshake.identity.public@ == crate::crypto::x25519_public(handshake.identity.private@),
        handshake.clock_skew == config.security.clock_skew_seconds * 1_000_000_000,
        header_models(handshake.headers@).to_multiset() == header_models(
            config.security.custom_headers@,
        ).to_multiset(),
        all_enrolled(handshake.allowed_clients@, config.security.allowed_clients@),
{
}

/// A server begins without connections, without entries and within its bounds, and lets
/// in whom its settings list.
pub proof fn a_server_begins_idle(runtime: ServerRuntime, config: AppConfig, key: [u8; 32])
    requires
        runtime.is_fresh_of(config),
    ensures
        runtime.metrics.connections.current == 0,
        !runtime.metrics.listening,
        runtime.handshakes.current == 0,
        runtime.probe_slots.current == 0,
        runtime.books@.entries.dom() == Set::<crate::ledger::OperationKey>::empty(),
        runtime.books@.last_wake.dom() == Set::<crate::limits::TargetModel>::empty(),
        runtime.replay_cache@.dom() == Set::<crate::replay::ReplayKey>::empty(),
        crate::limits::held(runtime.client_connections.active@, key) == 0,
        !runtime.restart_required,
        runtime.policy.source_healthy,
        runtime.policy.generation == 0,
        crate::policy::access_of(runtime.policy.clients@, key) == crate::policy::granted(
            config.security.allowed_clients@,
            key,
        ),
        is_snapshot_of(runtime.snapshot, config),
        runtime.metrics.connections.limit == 64,
{
}

/// A new connection changes the counts of connections alone, the end of a handshake those
/// of clients, and a request what guards against too many and repeated ones.
pub proof fn a_connection_changes_its_counts_alone(after: ServerRuntime, before: ServerRuntime)
    ensures
        same_but_peers(after, before) || same_but_clients(after, before) || same_but_requests(
            after,
            before,
        ) ==> {
            &&& after.snapshot == before.snapshot
            &&& after.handshake == before.handshake
            &&& after.probe_slots == before.probe_slots
            &&& after.books == before.books
            &&& after.policy == before.policy
            &&& after.overrides == before.overrides
            &&& after.restart_required == before.restart_required
        },
        same_but_peers(after, before) ==> after.replay_cache == before.replay_cache
            && after.request_rates == before.request_rates && after.client_connections
            == before.client_connections,
        same_but_clients(after, before) ==> after.replay_cache == before.replay_cache
            && after.request_rates == before.request_rates && after.ip_connections
            == before.ip_connections && after.metrics == before.metrics,
        same_but_requests(after, before) ==> after.client_connections == before.client_connections
            && after.ip_connections == before.ip_connections && after.metrics == before.metrics,
        same_limits(after, before) ==> after.metrics.connections.limit
            == before.metrics.connections.limit && after.handshakes.limit
            == before.handshakes.limit && after.ip_connections.maximum
            == before.ip_connections.maximum && after.pending_handshakes.maximum
            == before.pending_handshakes.maximum && after.metrics.listening
            == before.metrics.listening,
{
}

/// Two policies grant the same exactly if no key tells them apart.
pub proof fn policies_are_the_same_exactly_if_no_key_differs(
    a: Seq<crate::policy::ClientAccess>,
    b: Seq<crate::policy::ClientAccess>,
    key: [u8; 32],
)
    ensures
        same_grants(a, b) ==> crate::policy::access_of(a, key) == crate::policy::access_of(b, key),
        crate::policy::access_of(a, key) != crate::policy::access_of(b, key) ==> !same_grants(a, b),
        same_grants(a, a),
{
}

/// The command of a wake is for its targets, under its identifier, its nonce and its
/// catalogue.
pub proof fn a_command_is_that_of_its_wake(
    command: ClientCommand,
    session: WakeSessionModel,
    attempt: u8,
    ticket: Option<[u8; 32]>,
)
    requires
        is_wake_command(command, session, attempt, ticket),
    ensures
        command is Wake,
        texts(command->host_ids@) == session.targets,
        command->catalog_version == session.catalog_version,
        command->operation_id == session.operation_id,
        command->boot_nonce == session.boot_nonce,
        command->attempt == attempt,
        command->retry_ticket == ticket,
{
}

/// The command of a wake on the page is for its targets, under its identifier, its nonce
/// and its catalogue.
pub proof fn a_command_is_that_of_the_page(
    command: Option<ClientCommand>,
    wake: crate::client_view::WakeModel,
    attempt: u8,
    ticket: Option<[u8; 32]>,
)
    requires
        crate::client_view::sends(command, wake, attempt, ticket),
    ensures
        command is Some && command->0 is Wake,
        texts((command->0)->host_ids@) == wake.targets,
        (command->0)->catalog_version == wake.catalog_version,
        (command->0)->operation_id == wake.operation_id,
        (command->0)->boot_nonce == wake.boot_nonce,
        (command->0)->attempt == attempt,
        (command->0)->retry_ticket == ticket,
{
}

/// A client asks for states with a message of its own: a new identifier, the time, its
/// headers, and exactly the hosts that are to be asked for.
pub proof fn a_client_asks_for_what_it_wants(
    envelope: Option<ClientEnvelope>,
    ask: Option<StatusAsk>,
    request_id: [u8; 16],
    now_ms: u64,
    headers: Seq<HeaderModel>,
)
    requires
        asks(envelope, ask, request_id, now_ms, headers),
    ensures
        envelope is Some <==> ask is Some,
        envelope is Some ==> {
            &&& envelope->0.version == 1
            &&& envelope->0.request_id == request_id
            &&& envelope->0.issued_at_ms == now_ms
            &&& header_models(envelope->0.headers@) == headers
            &&& envelope->0.operation is GetStatuses
            &&& texts(envelope->0.operation->GetStatuses_host_ids@) == ask->0.ids
            &&& envelope->0.operation->GetStatuses_catalog_version == ask->0.catalog_version
        },
{
}

/// A reaction is of the kind that was stated: what was refused ends the connection, and
/// what was heard is told as it was.
pub proof fn a_reaction_is_as_stated(
    reaction: Reaction,
    stated: ReactionModel,
    request_id: [u8; 16],
    now_ms: u64,
    headers: Seq<HeaderModel>,
)
    requires
        is_reaction(reaction, stated, request_id, now_ms, headers),
    ensures
        reaction is Reject <==> stated is Reject,
        reaction is Go <==> stated is Go,
        reaction is Fail <==> stated is Fail,
        reaction is Reject ==> reaction->Reject_1 is Lost && reaction->Reject_0@ is Error,
        reaction is Fail ==> reaction->Fail_1 is Lost && crate::client::news(reaction->Fail_0@)
            == stated->Fail_0,
        reaction is Go ==> crate::client::news(reaction->Go_0@) == stated->Go_0 && asks(
            reaction->Go_1,
            stated->Go_1,
            request_id,
            now_ms,
            headers,
        ),
{
}

/// A list is asked for exactly if some open request asks for one.
pub proof fn a_list_is_open_exactly_if_one_was_asked_for(
    requests: Map<[u8; 16], RequestModel>,
    id: [u8; 16],
)
    ensures
        requests.contains_key(id) && requests[id] is List ==> list_is_open(requests),
        list_is_open(requests) ==> exists|other: [u8; 16]| #[trigger]
            requests.contains_key(other) && requests[other] is List,
{
    if requests.contains_key(id) && requests[id] is List {
        assert(crate::client::is_list(requests[id]));
    }
    if list_is_open(requests) {
        let other = choose|other: [u8; 16]| #[trigger]
            requests.contains_key(other) && crate::client::is_list(requests[other]);
        assert(requests[other] is List);
    }
}

/// The result of a wake says that it was accepted exactly if it was sent, and otherwise
/// why not.
pub proof fn a_result_says_what_became_of_its_host(id: Seq<char>, outcome: WakeOutcome)
    ensures
        result_of(id, outcome).host_id == id,
        result_of(id, outcome).accepted <==> outcome is Sent,
        result_of(id, outcome).error_code is None <==> outcome is Sent,
        outcome is InvalidTarget ==> result_of(id, outcome).error_code == Some(
            crate::protocol::WakeErrorCode::InvalidTarget,
        ),
        outcome is Unavailable ==> result_of(id, outcome).error_code == Some(
            crate::protocol::WakeErrorCode::SenderUnavailable,
        ),
{
}

/// A draft is what the page would save, is valid, and counts what clients lose.
pub proof fn a_draft_is_what_the_page_saves(
    view: ShownModel,
    outcome: Result<Draft, String>,
    config: crate::config::SettingsModel,
    clients: Seq<AllowedClient>,
    secret: Seq<u8>,
    private: Seq<u8>,
)
    requires
        view.is_drafted(outcome, config, clients, secret, private),
    ensures
        outcome is Ok ==> {
            &&& view.fault(config) is None
            &&& outcome->Ok_0.config.fault() is None
            &&& outcome->Ok_0.config@ == view.saved(
                config,
                crate::config::allowed_models(clients),
                secret,
                private,
            )
            &&& outcome->Ok_0.removed == crate::forms::removed_count(
                clients,
                crate::server_view::row_ids(view.hosts),
            )
        },
        view.fault(config) is Some ==> outcome is Err && outcome->Err_0@ == view.fault(config)->0,
{
}

/// The error of a server is told with its name and whether it may be tried again.
pub proof fn an_error_is_told_by_name(code: ErrorCode, retryable: bool)
    ensures
        "server error: "@.is_prefix_of(error_text(code, retryable)),
        retryable ==> "(retryable=true)"@.is_suffix_of(error_text(code, retryable)),
        !retryable ==> "(retryable=false)"@.is_suffix_of(error_text(code, retryable)),
{
    let text = error_text(code, retryable);
    let start = "server error: "@;
    assert(text.subrange(0, start.len() as int) =~= start);
    reveal_strlit(" (retryable=");
    reveal_strlit("true");
    reveal_strlit("false");
    reveal_strlit(")");
    reveal_strlit("(retryable=true)");
    reveal_strlit("(retryable=false)");
    if retryable {
        assert(text.skip(text.len() - 16) =~= "(retryable=true)"@);
    } else {
        assert(text.skip(text.len() - 17) =~= "(retryable=false)"@);
    }
}

/// Every error of a server, and every error of a connection, has its own name.
pub proof fn errors_have_their_names(code: ErrorCode, error: ClientConnectionErrorCode)
    ensures
        code_name(code) == "BadRequest"@ <==> code == ErrorCode::BadRequest,
        code_name(code) == "Unauthorized"@ <==> code == ErrorCode::Unauthorized,
        code_name(code) == "Replay"@ <==> code == ErrorCode::Replay,
        code_name(code) == "RateLimited"@ <==> code == ErrorCode::RateLimited,
        code_name(code) == "StaleCatalog"@ <==> code == ErrorCode::StaleCatalog,
        code_name(code) == "Busy"@ <==> code == ErrorCode::Busy,
        code_name(code) == "Internal"@ <==> code == ErrorCode::Internal,
        error.text() == "NET-RESOLVE"@ <==> error == ClientConnectionErrorCode::Resolve,
        error.text() == "NET-CONNECT"@ <==> error == ClientConnectionErrorCode::Connect,
        error.text() == "SEC-HANDSHAKE"@ <==> error == ClientConnectionErrorCode::Handshake,
        error.text() == "NET-TRANSPORT"@ <==> error == ClientConnectionErrorCode::Transport,
        error.text() == "PROTO-STATE"@ <==> error == ClientConnectionErrorCode::Protocol,
{
    reveal_strlit("BadRequest");
    reveal_strlit("Unauthorized");
    reveal_strlit("Replay");
    reveal_strlit("RateLimited");
    reveal_strlit("StaleCatalog");
    reveal_strlit("Busy");
    reveal_strlit("Internal");
    assert("BadRequest"@.len() == 10 && "Unauthorized"@.len() == 12 && "Replay"@.len() == 6);
    assert("RateLimited"@.len() == 11 && "StaleCatalog"@.len() == 12);
    assert("Busy"@.len() == 4 && "Internal"@.len() == 8);
    assert("Unauthorized"@[0] != "StaleCatalog"@[0]);
    reveal_strlit("NET-RESOLVE");
    reveal_strlit("NET-CONNECT");
    reveal_strlit("SEC-HANDSHAKE");
    reveal_strlit("NET-TRANSPORT");
    reveal_strlit("PROTO-STATE");
    assert("NET-RESOLVE"@[4] != "NET-CONNECT"@[4] && "NET-RESOLVE"@[0] != "PROTO-STATE"@[0]);
    assert("NET-CONNECT"@[0] != "PROTO-STATE"@[0] && "SEC-HANDSHAKE"@[0] != "NET-TRANSPORT"@[0]);
}

/// Every state of a row, and every level of the log, has its own word; the words of the
/// levels are as wide as each other in a column.
pub proof fn states_and_levels_have_their_words(row: RowState, level: Level)
    ensures
        row.text() == "QUEUED"@ <==> row == RowState::Queued,
        row.text() == "SENT"@ <==> row == RowState::Sent,
        row.text() == "REJECTED"@ <==> row == RowState::Rejected,
        row.text() == "ONLINE"@ <==> row == RowState::Online,
        row.text() == "RETRYING"@ <==> row == RowState::Retrying,
        level.text() == "INFO"@ <==> level == Level::Info,
        level.text() == "WARN"@ <==> level == Level::Warn,
        level.text() == "ERROR"@ <==> level == Level::Error,
        level.text() == "FATAL"@ <==> level == Level::Fatal,
        level.wide().len() == 5,
        level.text().is_prefix_of(level.wide()),
{
    reveal_strlit("QUEUED");
    reveal_strlit("SENT");
    reveal_strlit("REJECTED");
    reveal_strlit("ONLINE");
    reveal_strlit("RETRYING");
    reveal_strlit("INFO ");
    reveal_strlit("WARN ");
    reveal_strlit("INFO");
    reveal_strlit("WARN");
    reveal_strlit("ERROR");
    reveal_strlit("FATAL");
    assert("QUEUED"@[0] != "ONLINE"@[0] && "REJECTED"@[2] != "RETRYING"@[2]);
    assert("INFO"@[0] != "WARN"@[0] && "ERROR"@[0] != "FATAL"@[0]);
    assert(level.wide().subrange(0, level.text().len() as int) =~= level.text());
}

} // verus!
