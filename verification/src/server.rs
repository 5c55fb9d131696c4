//! The server: its settings at run time, who is let in, and what a session does.

use crate::clock::SECOND;
use crate::config::{
    collect_host_ids, host_id_of, host_ids_of, key_read, normal_ids, secret_read, AllowedClient,
    AppConfig, ClientConfig, ConfigError, ServerConfig,
};
use crate::limits::{
    held, ConnectionLimiter, KeyedConnectionLimiter, RateBucket, RateKey, RateLimiter, ServerMetrics,
    MAX_CONCURRENT_HANDSHAKES, MAX_CONCURRENT_PROBES, MAX_CONNECTIONS_PER_CLIENT,
    MAX_CONNECTIONS_PER_IP, MAX_PENDING_HANDSHAKES_PER_IP,
};
use crate::net::{ip_literal, is_v4_literal, parse_ip, v4_octets, IpAddress, IpModel};
use crate::octets::{all_zero, is_zero, same_key};
use crate::policy::{
    access_of, client_access_from_config, granted, id_set, same_access, same_grants, same_hosts,
    unique_ids, AccessPolicy, ClientAccess, ServerError, ServerFault,
};
use crate::protocol::{
    ascending, canonical_headers, header_models, headers_fault, Header, HeaderModel, HostSummary,
    ProtocolError, ServerEnvelope,
};
use crate::replay::ReplayCache;
use crate::request::{restamped, same_headers, Books};
use crate::security::{
    server_config_fault, AllowedClientAuth, Identity, SecurityError, ServerHandshakeConfig,
};
use crate::snapshot::{
    catalog_version, catalog_version_of, entry_ids, host_entries, sorted_summaries, BindAddress,
    HostEntry, Snapshot,
};
use crate::text::{lower_text, lowered, sorted_texts, texts, trim, trimmed};
use crate::wire::{a_valid_reply_fits, encode_server};
use vstd::prelude::*;

verus! {

/// The largest answer that a server sends.
pub const MAX_APP_PAYLOAD: usize = 32768;

/// The pause between two looks at the settings.
pub const ACCESS_POLICY_REFRESH_INTERVAL: u64 = SECOND / 4;

/// The wire form of an answer that is sent now, if it is valid and not too large
/// for the channel.
pub fn fit_response(reply: &ServerEnvelope, now_ms: u64) -> (r: Result<Vec<u8>, ServerError>)
    ensures
        ({
            let stamped = restamped(reply@, now_ms);
            match stamped.fault() {
                Some(fault) => r is Err && r->Err_0@ == ServerFault::Protocol(fault),
                None => r is Ok && r->Ok_0@ == stamped.bytes() && r->Ok_0@.len() <= MAX_APP_PAYLOAD,
            }
        }),
{
    let mut stamped: ServerEnvelope = reply.clone();
    stamped.issued_at_ms = now_ms;
    if let Err(fault) = stamped.validate() {
        return Err(ServerError::Protocol(fault));
    }
    proof {
        a_valid_reply_fits(stamped@);
    }
    match encode_server(&stamped) {
        Ok(bytes) => if bytes.len() > MAX_APP_PAYLOAD {
            Err(
                ServerError::Invalid(
                    "response exceeds the authenticated transport limit".to_owned(),
                ),
            )
        } else {
            Ok(bytes)
        },
        Err(fault) => Err(ServerError::Protocol(fault)),
    }
}

/// The settings name no server to connect to and hold no client identity.
pub open spec fn is_server_only(client: ClientConfig) -> bool {
    &&& trimmed(client.address@).len() == 0
    &&& trimmed(client.client_id@).len() == 0
    &&& trimmed(client.static_private_key@).len() == 0
    &&& trimmed(client.static_public_key@).len() == 0
    &&& trimmed(client.pinned_server_static_key@).len() == 0
}

fn server_only(client: &ClientConfig) -> (r: bool)
    ensures
        r == is_server_only(*client),
{
    trim(&client.address).as_str().is_empty() && trim(&client.client_id).as_str().is_empty()
        && trim(&client.static_private_key).as_str().is_empty() && trim(
        &client.static_public_key,
    ).as_str().is_empty() && trim(&client.pinned_server_static_key).as_str().is_empty()
}

/// The place of the first client with a name in the access list.
pub open spec fn find_name(clients: Seq<AllowedClientAuth>, name: Seq<char>, k: int) -> Option<int>
    decreases clients.len() - k,
{
    if k < 0 || k >= clients.len() {
        None
    } else if lowered(clients[k].client_id@) == name {
        Some(k)
    } else {
        find_name(clients, name, k + 1)
    }
}

/// Where the access list of the handshake first departs from the settings, from
/// `k` on.
pub open spec fn acl_fault(
    configured: Seq<AllowedClient>,
    clients: Seq<AllowedClientAuth>,
    k: int,
) -> Option<Seq<char>>
    decreases configured.len() - k,
{
    if k < 0 || k >= configured.len() {
        None
    } else {
        match find_name(clients, lowered(configured[k].client_id@), 0) {
            None => Some("handshake ACL client mismatch"@),
            Some(i) => if key_read(configured[k].static_public_key@) != Ok::<Seq<u8>, Seq<char>>(
                clients[i].static_public_key@,
            ) || id_set(texts(clients[i].allowed_hosts@)) != id_set(
                normal_ids(texts(configured[k].allowed_hosts@)),
            ) {
                Some("handshake ACL entry mismatch"@)
            } else {
                acl_fault(configured, clients, k + 1)
            },
        }
    }
}

#[verifier::loop_isolation(false)]
fn find_by_name(clients: &Vec<AllowedClientAuth>, name: &str) -> (r: Option<usize>)
    ensures
        match r {
            Some(i) => i < clients@.len() && find_name(clients@, name@, 0) == Some(i as int),
            None => find_name(clients@, name@, 0) is None,
        },
{
    let mut k: usize = 0;
    while k < clients.len()
        invariant
            k <= clients@.len(),
            find_name(clients@, name@, 0) == find_name(clients@, name@, k as int),
        decreases clients@.len() - k,
    {
        if crate::text::same_text(&lower_text(&clients[k].client_id), name) {
            return Some(k);
        }
        k += 1;
    }
    None
}

#[verifier::loop_isolation(false)]
fn check_acl(configured: &Vec<AllowedClient>, clients: &Vec<AllowedClientAuth>) -> (r: Option<
    String,
>)
    ensures
        crate::config::says(r, acl_fault(configured@, clients@, 0)),
{
    let mut k: usize = 0;
    while k < configured.len()
        invariant
            k <= configured@.len(),
            acl_fault(configured@, clients@, 0) == acl_fault(configured@, clients@, k as int),
        decreases configured@.len() - k,
    {
        let i: usize = match find_by_name(clients, &lower_text(&configured[k].client_id)) {
            Some(i) => i,
            None => {
                return Some("handshake ACL client mismatch".to_owned());
            },
        };
        let same: bool = match crate::config::decode_key(&configured[k].static_public_key) {
            Ok(key) => {
                proof {
                    crate::octets::key_ext(key, clients@[i as int].static_public_key);
                }
                same_key(&key, &clients[i].static_public_key) && same_hosts(
                    &clients[i].allowed_hosts,
                    &unique_ids(&configured[k].allowed_hosts),
                )
            },
            Err(_) => false,
        };
        if !same {
            return Some("handshake ACL entry mismatch".to_owned());
        }
        k += 1;
    }
    None
}

/// Why no server is made of the settings and its side of the handshake.
pub open spec fn runtime_fault(config: AppConfig, handshake: ServerHandshakeConfig) -> Option<
    ServerFault,
> {
    let server_key = key_read(config.security.server_static_public_key@);
    let clients = config.security.allowed_clients@;
    if config.fault() is Some {
        Some(ServerFault::Config(config.fault()->0))
    } else if !is_server_only(config.client) {
        Some(ServerFault::Invalid("server runtime requires a server-only configuration"@))
    } else if is_zero(handshake.psk@) {
        Some(ServerFault::Invalid("PSK cannot be all zero"@))
    } else if secret_read(config.security.shared_secret@) != Ok::<Seq<u8>, Seq<char>>(
        handshake.psk@,
    ) {
        Some(ServerFault::Invalid("handshake PSK does not match configuration"@))
    } else if server_key is Err {
        Some(ServerFault::Invalid("server identity is missing"@))
    } else if server_key->Ok_0 != handshake.identity.public@ {
        Some(ServerFault::Invalid("handshake identity does not match configuration"@))
    } else if handshake.clock_skew != config.security.clock_skew_seconds * SECOND {
        Some(ServerFault::Invalid("handshake clock policy does not match configuration"@))
    } else if handshake.allowed_clients@.len() != clients.len() {
        Some(ServerFault::Invalid("handshake ACL does not match configuration"@))
    } else if acl_fault(clients, handshake.allowed_clients@, 0) is Some {
        Some(ServerFault::Invalid(acl_fault(clients, handshake.allowed_clients@, 0)->0))
    } else {
        headers_mismatch(
            header_models(config.security.custom_headers@),
            header_models(handshake.headers@),
        )
    }
}

/// The order of the headers does not count, their contents do.
pub open spec fn headers_mismatch(ours: Seq<HeaderModel>, theirs: Seq<HeaderModel>) -> Option<
    ServerFault,
> {
    if headers_fault(ours) is Some {
        Some(ServerFault::Protocol(headers_fault(ours)->0))
    } else if headers_fault(theirs) is Some {
        Some(ServerFault::Protocol(headers_fault(theirs)->0))
    } else if ours.to_multiset() != theirs.to_multiset() {
        Some(ServerFault::Invalid("handshake and application custom headers differ"@))
    } else {
        None
    }
}

fn canonical_copy(headers: &Vec<Header>) -> (r: Result<Vec<Header>, ProtocolError>)
    ensures
        match r {
            Ok(out) => {
                &&& headers_fault(header_models(headers@)) is None
                &&& ascending(header_models(out@))
                &&& header_models(out@).to_multiset() == header_models(headers@).to_multiset()
            },
            Err(fault) => headers_fault(header_models(headers@)) == Some(fault),
        },
{
    let copy: Vec<Header> = headers.clone();
    assert(copy@ =~= headers@);
    canonical_headers(copy)
}

/// The addresses that the settings say to listen on.
pub open spec fn binds_of(server: ServerConfig) -> Seq<(IpModel, u16)> {
    let first = (ip_literal(trimmed(server.bind_address@))->0, server.port);
    if server.dual_stack {
        seq![(IpModel::V4(v4_octets(trimmed(server.bind_address_v4@))->0), server.port), first]
    } else {
        seq![first]
    }
}

pub open spec fn bind_models(binds: Seq<BindAddress>) -> Seq<(IpModel, u16)> {
    binds.map_values(|b: BindAddress| (b.ip@, b.port))
}

fn bind_addresses(server: &ServerConfig) -> (r: Option<Vec<BindAddress>>)
    ensures
        server.fault() is None ==> r is Some && bind_models(r->0@) == binds_of(*server),
{
    let ip: IpAddress = match parse_ip(&trim(&server.bind_address)) {
        Some(ip) => ip,
        None => {
            return None;
        },
    };
    let mut out: Vec<BindAddress> = Vec::new();
    if server.dual_stack {
        let text: String = trim(&server.bind_address_v4);
        if !is_v4_literal(&text) {
            return None;
        }
        match parse_ip(&text) {
            Some(v4) => {
                out.push(BindAddress { ip: v4, port: server.port });
            },
            None => {
                return None;
            },
        }
    }
    out.push(BindAddress { ip, port: server.port });
    assert(server.fault() is None ==> bind_models(out@) =~= binds_of(*server));
    Some(out)
}

/// The snapshot is the one of the settings.
pub open spec fn is_snapshot_of(snapshot: Snapshot, config: AppConfig) -> bool {
    &&& snapshot.wf()
    &&& bind_models(snapshot.bind_addrs@) == binds_of(config.server)
    &&& snapshot.dual_stack == config.server.dual_stack
    &&& header_models(snapshot.headers@).to_multiset() == header_models(
        config.security.custom_headers@,
    ).to_multiset()
    &&& entry_ids(snapshot.hosts@) == host_ids_of(config.hosts@)
    &&& snapshot.hosts@.len() == config.hosts@.len()
    &&& forall|i: int|
        0 <= i < config.hosts@.len() ==> (#[trigger] snapshot.hosts@[i]).config == config.hosts@[i]
    &&& snapshot.max_requests_per_minute == config.security.max_requests_per_minute
    &&& snapshot.clock_skew == config.security.clock_skew_seconds * SECOND
}

/// The snapshot of valid settings.
fn take_snapshot(config: &AppConfig, headers: Vec<Header>) -> (r: Option<Snapshot>)
    requires
        config.fault() is None,
        headers_fault(header_models(config.security.custom_headers@)) is None,
        ascending(header_models(headers@)),
        header_models(headers@).to_multiset() == header_models(
            config.security.custom_headers@,
        ).to_multiset(),
    ensures
        r is Some,
        is_snapshot_of(r->0, *config),
        r->0.catalog_version == catalog_version_of(sorted_texts(host_ids_of(config.hosts@))),
        r->0.headers == headers,
{
    let bind_addrs: Vec<BindAddress> = match bind_addresses(&config.server) {
        Some(binds) => binds,
        None => {
            return None;
        },
    };
    let hosts: Vec<HostEntry> = host_entries(&config.hosts);
    let summaries: Vec<HostSummary> = sorted_summaries(&config.hosts);
    let version: u64 = catalog_version(&summaries);
    let snapshot = Snapshot {
        bind_addrs,
        dual_stack: config.server.dual_stack,
        headers,
        hosts,
        summaries,
        catalog_version: version,
        max_requests_per_minute: config.security.max_requests_per_minute,
        clock_skew: config.security.clock_skew_seconds * SECOND,
    };
    proof {
        crate::protocol::canonical_headers_are_stable(
            header_models(config.security.custom_headers@),
            header_models(headers@),
            header_models(headers@),
        );
        let ids = entry_ids(hosts@);
        assert forall|i: int| 0 <= i < hosts@.len() implies is_id_at(ids, i) by {
            crate::config::valid_hosts_are_valid_on_the_wire(*config, i, i);
        }
        assert forall|i: int, j: int| 0 <= i < ids.len() && 0 <= j < ids.len() && i != j implies ids[i]
            != ids[j] by {
            crate::config::valid_hosts_are_valid_on_the_wire(*config, i, j);
        }
        assert forall|i: int| 0 <= i < hosts@.len() implies crate::protocol::is_id(
            #[trigger] hosts@[i].id@,
        ) by {
            assert(is_id_at(ids, i));
        }
        assert(hosts@.len() <= crate::protocol::MAX_HOSTS);
    }
    Some(snapshot)
}

spec fn is_id_at(ids: Seq<Seq<char>>, i: int) -> bool {
    crate::protocol::is_id(ids[i])
}

/// Settings of the command line that override those of the file.
pub struct Overrides {
    pub bind: Option<String>,
    pub port: Option<u16>,
}

impl Overrides {
    /// The server settings with what is overridden. An IPv4 address cannot
    /// serve two stacks, so that it narrows the server to one.
    pub open spec fn applied(self, server: ServerConfig, out: ServerConfig) -> bool {
        &&& out.bind_address@ == match self.bind {
            Some(bind) => trimmed(bind@),
            None => server.bind_address@,
        }
        &&& out.bind_address_v4@ == server.bind_address_v4@
        &&& out.port == match self.port {
            Some(port) => port,
            None => server.port,
        }
        &&& out.dual_stack == (server.dual_stack && !(self.bind is Some && v4_octets(
            trimmed(self.bind->0@),
        ) is Some))
    }

    /// Applies what is overridden.
    pub fn apply(&self, config: &mut AppConfig)
        ensures
            self.applied(old(config).server, final(config).server),
            *final(config) == (AppConfig { server: final(config).server, ..*old(config) }),
    {
        if let Some(bind) = &self.bind {
            let bind: String = trim(bind);
            if is_v4_literal(&bind) {
                config.server.dual_stack = false;
            }
            config.server.bind_address = bind;
        }
        if let Some(port) = self.port {
            config.server.port = port;
        }
    }
}

/// Everything that a running server decides by.
pub struct ServerRuntime {
    pub snapshot: Snapshot,
    pub handshake: ServerHandshakeConfig,
    pub replay_cache: ReplayCache,
    pub probe_slots: ConnectionLimiter,
    pub metrics: ServerMetrics,
    pub handshakes: ConnectionLimiter,
    pub pending_handshakes: KeyedConnectionLimiter<IpAddress>,
    pub ip_connections: KeyedConnectionLimiter<IpAddress>,
    pub client_connections: KeyedConnectionLimiter<[u8; 32]>,
    pub handshake_rates: RateLimiter,
    pub request_rates: RateLimiter,
    pub books: Books,
    pub policy: AccessPolicy,
    pub overrides: Overrides,
    /// The listeners no longer are those of the settings.
    pub restart_required: bool,
}

impl ServerRuntime {
    pub open spec fn wf(self) -> bool {
        &&& self.snapshot.wf()
        &&& self.replay_cache.wf()
        &&& self.probe_slots.wf()
        &&& self.metrics.connections.wf()
        &&& self.handshakes.wf()
        &&& self.pending_handshakes.wf()
        &&& self.ip_connections.wf()
        &&& self.client_connections.wf()
        &&& self.handshake_rates.wf()
        &&& self.request_rates.wf()
        &&& self.books.wf()
    }

    /// Nothing has happened yet.
    pub open spec fn is_idle(self) -> bool {
        &&& self.replay_cache@ == Map::<crate::replay::ReplayKey, crate::replay::ReplayEntry>::empty()
        &&& self.metrics.connections.current == 0
        &&& !self.metrics.listening
        &&& self.handshakes.current == 0
        &&& self.probe_slots.current == 0
        &&& self.books@.entries == Map::<
            crate::ledger::OperationKey,
            crate::ledger::EntryModel,
        >::empty()
        &&& self.books@.last_wake == Map::<crate::limits::TargetModel, u64>::empty()
        &&& self.handshake_rates@ == Map::<RateKey, RateBucket>::empty()
        &&& self.request_rates@ == Map::<RateKey, RateBucket>::empty()
        &&& forall|key: IpAddress| #[trigger] held(self.pending_handshakes.active@, key) == 0
        &&& forall|key: IpAddress| #[trigger] held(self.ip_connections.active@, key) == 0
        &&& forall|key: [u8; 32]| #[trigger] held(self.client_connections.active@, key) == 0
        &&& !self.restart_required
    }

    /// The server admits as many connections, handshakes and probes as every
    /// server does.
    pub open spec fn is_bounded(self) -> bool {
        &&& self.metrics.connections.limit == crate::limits::MAX_CONNECTIONS
        &&& self.handshakes.limit == MAX_CONCURRENT_HANDSHAKES
        &&& self.probe_slots.limit == MAX_CONCURRENT_PROBES
        &&& self.pending_handshakes.maximum == MAX_PENDING_HANDSHAKES_PER_IP
        &&& self.ip_connections.maximum == MAX_CONNECTIONS_PER_IP
        &&& self.client_connections.maximum == MAX_CONNECTIONS_PER_CLIENT
    }

    /// A server that has just been made of the settings.
    pub open spec fn is_fresh_of(self, config: AppConfig) -> bool {
        &&& self.wf()
        &&& self.is_idle()
        &&& self.is_bounded()
        &&& is_snapshot_of(self.snapshot, config)
        &&& self.snapshot.catalog_version == catalog_version_of(
            sorted_texts(host_ids_of(config.hosts@)),
        )
        &&& self.policy.source_healthy
        &&& self.policy.generation == 0
        &&& forall|key: [u8; 32]| #[trigger]
            access_of(self.policy.clients@, key) == granted(config.security.allowed_clients@, key)
    }

    /// Makes a server of the settings and its side of the handshake, which must
    /// say the same. No listener is opened.
    pub fn new_with_components(
        config: &AppConfig,
        handshake: ServerHandshakeConfig,
        overrides: Overrides,
    ) -> (r: Result<ServerRuntime, ServerError>)
        ensures
            match r {
                Ok(runtime) => {
                    &&& runtime_fault(*config, handshake) is None
                    &&& runtime.is_fresh_of(*config)
                    &&& runtime.handshake == handshake
                    &&& runtime.overrides == overrides
                },
                Err(error) => runtime_fault(*config, handshake) == Some(error@),
            },
    {
        if let Err(error) = config.validate() {
            return Err(ServerError::Config(error));
        }
        if !server_only(&config.client) {
            return Err(
                ServerError::Invalid(
                    "server runtime requires a server-only configuration".to_owned(),
                ),
            );
        }
        if all_zero(&handshake.psk) {
            return Err(ServerError::Invalid("PSK cannot be all zero".to_owned()));
        }
        let same_psk: bool = match config.secret_key() {
            Ok(psk) => {
                proof {
                    crate::octets::key_ext(psk, handshake.psk);
                }
                same_key(&psk, &handshake.psk)
            },
            Err(_) => false,
        };
        if !same_psk {
            return Err(
                ServerError::Invalid("handshake PSK does not match configuration".to_owned()),
            );
        }
        match crate::config::decode_key(&config.security.server_static_public_key) {
            Ok(key) => {
                proof {
                    crate::octets::key_ext(key, handshake.identity.public);
                }
                if !same_key(&key, &handshake.identity.public) {
                    return Err(
                        ServerError::Invalid(
                            "handshake identity does not match configuration".to_owned(),
                        ),
                    );
                }
            },
            Err(_) => {
                return Err(ServerError::Invalid("server identity is missing".to_owned()));
            },
        }
        if handshake.clock_skew != config.security.clock_skew_seconds * SECOND {
            return Err(
                ServerError::Invalid(
                    "handshake clock policy does not match configuration".to_owned(),
                ),
            );
        }
        if handshake.allowed_clients.len() != config.security.allowed_clients.len() {
            return Err(
                ServerError::Invalid("handshake ACL does not match configuration".to_owned()),
            );
        }
        if let Some(text) = check_acl(
            &config.security.allowed_clients,
            &handshake.allowed_clients,
        ) {
            return Err(ServerError::Invalid(text));
        }
        let headers: Vec<Header> = match canonical_copy(&config.security.custom_headers) {
            Ok(headers) => headers,
            Err(fault) => {
                return Err(ServerError::Protocol(fault));
            },
        };
        let theirs: Vec<Header> = match canonical_copy(&handshake.headers) {
            Ok(headers) => headers,
            Err(fault) => {
                return Err(ServerError::Protocol(fault));
            },
        };
        if !same_headers(&headers, &theirs) {
            proof {
                if header_models(headers@).to_multiset() == header_models(theirs@).to_multiset() {
                    crate::protocol::ascending_is_unique(
                        header_models(headers@),
                        header_models(theirs@),
                    );
                }
            }
            return Err(
                ServerError::Invalid("handshake and application custom headers differ".to_owned()),
            );
        }
        let clients: Vec<ClientAccess> = match client_access_from_config(
            &config.security.allowed_clients,
        ) {
            Ok(clients) => clients,
            Err(error) => {
                proof {
                    enrolled_keys_are_readable(*config, handshake);
                }
                return Err(error);
            },
        };
        let snapshot: Snapshot = match take_snapshot(config, headers) {
            Some(snapshot) => snapshot,
            None => {
                return Err(
                    ServerError::Invalid("bind_address must be an IP literal".to_owned()),
                );
            },
        };
        Ok(
            ServerRuntime {
                snapshot,
                handshake,
                replay_cache: ReplayCache::default(),
                probe_slots: ConnectionLimiter::new(MAX_CONCURRENT_PROBES),
                metrics: ServerMetrics::default(),
                handshakes: ConnectionLimiter::new(MAX_CONCURRENT_HANDSHAKES),
                pending_handshakes: KeyedConnectionLimiter::new(MAX_PENDING_HANDSHAKES_PER_IP),
                ip_connections: KeyedConnectionLimiter::new(MAX_CONNECTIONS_PER_IP),
                client_connections: KeyedConnectionLimiter::new(MAX_CONNECTIONS_PER_CLIENT),
                handshake_rates: RateLimiter::new(),
                request_rates: RateLimiter::new(),
                books: Books::new(),
                policy: AccessPolicy::new(clients),
                overrides,
                restart_required: false,
            },
        )
    }
}

/// In settings that a handshake agrees with every client's key can be read.
proof fn enrolled_keys_are_readable(config: AppConfig, handshake: ServerHandshakeConfig)
    requires
        acl_fault(config.security.allowed_clients@, handshake.allowed_clients@, 0) is None,
    ensures
        crate::policy::keys_readable(config.security.allowed_clients@),
{
    let clients = config.security.allowed_clients@;
    assert forall|i: int| 0 <= i < clients.len() implies key_read(
        (#[trigger] clients[i]).static_public_key@,
    ) is Ok by {
        acl_agrees(clients, handshake.allowed_clients@, 0, i);
    }
}

proof fn acl_agrees(
    configured: Seq<AllowedClient>,
    clients: Seq<AllowedClientAuth>,
    k: int,
    i: int,
)
    requires
        acl_fault(configured, clients, k) is None,
        0 <= k <= i < configured.len(),
    ensures
        key_read(configured[i].static_public_key@) is Ok,
    decreases i - k,
{
    if k < i {
        acl_agrees(configured, clients, k + 1, i);
    }
}

/// The key pair of the settings, as the handshake uses it.
pub open spec fn is_identity_of(identity: Identity, config: AppConfig) -> bool {
    &&& key_read(config.security.server_static_private_key@) == Ok::<Seq<u8>, Seq<char>>(
        identity.private@,
    )
    &&& key_read(config.security.server_static_public_key@) == Ok::<Seq<u8>, Seq<char>>(
        identity.public@,
    )
    &&& identity.sound()
}

proof fn clients_accepted(config: AppConfig, k: int)
    requires
        config.fault() is None,
        0 <= k <= config.security.allowed_clients@.len(),
    ensures
        crate::security::enrolment_fault(
            config.security.allowed_clients@,
            host_ids_of(config.hosts@),
            k,
        ) is None,
    decreases config.security.allowed_clients@.len() - k,
{
    let clients = config.security.allowed_clients@;
    let ids = host_ids_of(config.hosts@);
    if k < clients.len() {
        crate::config::clients_accepted(clients, ids, 0, k);
        let client = clients[k];
        assert(trimmed(client.client_id@) == client.client_id@);
        assert(crate::security::names_of(clients.take(k)) =~= crate::config::client_ids_of(
            clients.take(k),
        )) by {
            assert forall|i: int| 0 <= i < k implies host_id_of(
                #[trigger] clients.take(k)[i].client_id@,
            ) == lowered(clients.take(k)[i].client_id@) by {
                crate::config::clients_accepted(clients, ids, 0, i);
                assert(clients.take(k)[i] == clients[i]);
            }
        }
        assert(crate::security::keys_of(clients.take(k)) =~= crate::config::client_keys_of(
            clients.take(k),
        ));
        assert(crate::security::hosts_known(client, ids)) by {
            assert forall|h: int| 0 <= h < client.allowed_hosts@.len() implies ids.contains(
                host_id_of(#[trigger] client.allowed_hosts@[h]@),
            ) by {
                crate::config::valid_clients_are_sound(config, k, k, h);
            }
        }
        clients_accepted(config, k + 1);
    }
}

/// Settings that are valid are accepted for the handshake, if they hold a key
/// pair and no header twice.
pub proof fn valid_settings_are_accepted(config: AppConfig, identity: Identity, psk: [u8; 32])
    requires
        config.fault() is None,
        headers_fault(header_models(config.security.custom_headers@)) is None,
        is_identity_of(identity, config),
        secret_read(config.security.shared_secret@) == Ok::<Seq<u8>, Seq<char>>(psk@),
    ensures
        server_config_fault(
            psk@,
            identity,
            config.security.custom_headers@,
            config.security.allowed_clients@,
            host_ids_of(config.hosts@),
        ) is None,
{
    clients_accepted(config, 0);
    assert(config.keys_fault() is None);
    crate::config::a_paired_key_is_strong(
        config.security.server_static_private_key@,
        config.security.server_static_public_key@,
        "server"@,
    );
    assert(!is_zero(psk@));
}

proof fn found_by_name(
    list: Seq<AllowedClientAuth>,
    clients: Seq<AllowedClient>,
    host_ids: Seq<Seq<char>>,
    k: int,
    from: int,
)
    requires
        crate::config::clients_fault(clients, host_ids, 0) is None,
        crate::security::all_enrolled(list, clients),
        0 <= from <= k < clients.len(),
    ensures
        find_name(list, lowered(clients[k].client_id@), from) == Some(k),
    decreases k - from,
{
    crate::config::clients_accepted(clients, host_ids, 0, k);
    crate::config::clients_accepted(clients, host_ids, 0, from);
    assert(crate::security::is_enrolled(list[from], clients[from]));
    crate::text::lowered_is_stable(clients[from].client_id@);
    if from < k {
        let ids = crate::config::client_ids_of(clients.take(k));
        assert(ids[from] == lowered(clients[from].client_id@));
        found_by_name(list, clients, host_ids, k, from + 1);
    }
}

proof fn acl_of_settings_agrees(
    list: Seq<AllowedClientAuth>,
    clients: Seq<AllowedClient>,
    host_ids: Seq<Seq<char>>,
    k: int,
)
    requires
        crate::config::clients_fault(clients, host_ids, 0) is None,
        crate::security::all_enrolled(list, clients),
        0 <= k <= clients.len(),
    ensures
        acl_fault(clients, list, k) is None,
    decreases clients.len() - k,
{
    if k < clients.len() {
        found_by_name(list, clients, host_ids, k, 0);
        assert(crate::security::is_enrolled(list[k], clients[k]));
        assert(id_set(texts(list[k].allowed_hosts@)) =~= id_set(
            normal_ids(texts(clients[k].allowed_hosts@)),
        ));
        acl_of_settings_agrees(list, clients, host_ids, k + 1);
    }
}

/// The server's side of the handshake, as the settings say it.
pub open spec fn is_handshake_of(handshake: ServerHandshakeConfig, config: AppConfig) -> bool {
    &&& secret_read(config.security.shared_secret@) == Ok::<Seq<u8>, Seq<char>>(handshake.psk@)
    &&& is_identity_of(handshake.identity, config)
    &&& handshake.clock_skew == config.security.clock_skew_seconds * SECOND
    &&& ascending(header_models(handshake.headers@))
    &&& header_models(handshake.headers@).to_multiset() == header_models(
        config.security.custom_headers@,
    ).to_multiset()
    &&& crate::security::all_enrolled(
        handshake.allowed_clients@,
        config.security.allowed_clients@,
    )
}

/// Why the settings give no handshake: there is no key pair, or a header stands
/// twice.
pub open spec fn handshake_fault(config: AppConfig) -> Option<SecurityError> {
    let private = key_read(config.security.server_static_private_key@);
    let public = key_read(config.security.server_static_public_key@);
    let headers = headers_fault(header_models(config.security.custom_headers@));
    if private is Err || public is Err || public->Ok_0 != crate::crypto::x25519_public(
        private->Ok_0,
    ) {
        Some(SecurityError::Identity)
    } else if headers is Some {
        Some(SecurityError::Protocol(headers->0))
    } else {
        None
    }
}

/// The server's side of the handshake for valid settings.
pub fn configured_handshake(config: &AppConfig) -> (r: Result<ServerHandshakeConfig, SecurityError>)
    requires
        config.fault() is None,
    ensures
        match handshake_fault(*config) {
            None => r is Ok && is_handshake_of(r->Ok_0, *config),
            Some(error) => r == Err::<ServerHandshakeConfig, SecurityError>(error),
        },
{
    assert(config.security.limits_fault() is None);
    let psk: [u8; 32] = match config.secret_key() {
        Ok(psk) => psk,
        Err(_) => {
            return Err(SecurityError::Identity);
        },
    };
    let identity: Identity = match Identity::from_hex(
        &config.security.server_static_private_key,
        &config.security.server_static_public_key,
    ) {
        Ok(identity) => identity,
        Err(error) => {
            return Err(error);
        },
    };
    let headers: Vec<Header> = config.security.custom_headers.clone();
    assert(headers@ =~= config.security.custom_headers@);
    let host_ids: Vec<String> = collect_host_ids(&config.hosts);
    proof {
        if headers_fault(header_models(config.security.custom_headers@)) is None {
            valid_settings_are_accepted(*config, identity, psk);
        } else {
            identity_is_strong(*config, identity);
        }
    }
    ServerHandshakeConfig::from_config(
        psk,
        identity,
        config.security.clock_skew_seconds * SECOND,
        headers,
        &config.security.allowed_clients,
        &host_ids,
    )
}

proof fn identity_is_strong(config: AppConfig, identity: Identity)
    requires
        config.fault() is None,
        is_identity_of(identity, config),
    ensures
        !crate::security::weak_key(identity.public@),
{
    assert(config.keys_fault() is None);
    crate::config::a_paired_key_is_strong(
        config.security.server_static_private_key@,
        config.security.server_static_public_key@,
        "server"@,
    );
}

/// The handshake of valid settings agrees with them.
pub proof fn a_configured_handshake_agrees(config: AppConfig, handshake: ServerHandshakeConfig)
    requires
        config.fault() is None,
        is_server_only(config.client),
        headers_fault(header_models(config.security.custom_headers@)) is None,
        is_handshake_of(handshake, config),
    ensures
        runtime_fault(config, handshake) is None,
{
    assert(config.directory_fault() is None);
    acl_of_settings_agrees(
        handshake.allowed_clients@,
        config.security.allowed_clients@,
        host_ids_of(config.hosts@),
        0,
    );
    crate::protocol::canonical_headers_are_stable(
        header_models(config.security.custom_headers@),
        header_models(handshake.headers@),
        header_models(handshake.headers@),
    );
}

/// Why no server is started with the settings of a file, `out` being those
/// settings with what was overridden.
pub open spec fn start_fault(config: AppConfig, out: AppConfig) -> Option<ServerFault> {
    if config.fault() is Some {
        Some(ServerFault::Config(config.fault()->0))
    } else if !is_server_only(config.client) {
        Some(
            ServerFault::Invalid(
                "server mode requires a server-only configuration file; client settings were found"@,
            ),
        )
    } else if out.fault() is Some {
        Some(ServerFault::Config(out.fault()->0))
    } else if handshake_fault(out) is Some {
        Some(ServerFault::Security(handshake_fault(out)->0))
    } else {
        None
    }
}

/// Makes a server of the settings of a file, with what was overridden. The
/// settings come back as they are in force.
pub fn start_server(config: AppConfig, overrides: Overrides) -> (r: Result<
    (ServerRuntime, AppConfig),
    ServerError,
>)
    ensures
        match r {
            Ok((runtime, out)) => {
                &&& overrides.applied(config.server, out.server)
                &&& out == (AppConfig { server: out.server, ..config })
                &&& start_fault(config, out) is None
                &&& runtime.is_fresh_of(out)
                &&& is_handshake_of(runtime.handshake, out)
                &&& runtime.overrides == overrides
            },
            Err(error) => exists|out: AppConfig| #[trigger]
                overrides.applied(config.server, out.server) && out == (AppConfig {
                    server: out.server,
                    ..config
                }) && start_fault(config, out) == Some(error@),
        },
{
    let mut out: AppConfig = config;
    let checked: Result<(), ConfigError> = out.validate();
    let alone: bool = server_only(&out.client);
    overrides.apply(&mut out);
    assert(overrides.applied(config.server, out.server));
    if let Err(error) = checked {
        return Err(ServerError::Config(error));
    }
    if !alone {
        return Err(
            ServerError::Invalid(
                "server mode requires a server-only configuration file; client settings were found".to_owned(),
            ),
        );
    }
    if let Err(error) = out.validate() {
        return Err(ServerError::Config(error));
    }
    let handshake: ServerHandshakeConfig = match configured_handshake(&out) {
        Ok(handshake) => handshake,
        Err(error) => {
            return Err(ServerError::Security(error));
        },
    };
    proof {
        a_configured_handshake_agrees(out, handshake);
    }
    match ServerRuntime::new_with_components(&out, handshake, overrides) {
        Ok(runtime) => Ok((runtime, out)),
        Err(error) => Err(error),
    }
}

/// What became of the access policy when the settings were read again.
#[derive(Clone, Copy, Debug, PartialEq, Eq, Structural)]
pub enum PolicyChange {
    Unchanged,
    /// The policy was replaced; so many clients are enrolled.
    Reloaded(usize),
    /// The settings are unusable: nobody has access any more.
    Revoked,
    /// The settings are still unusable.
    StillRevoked,
    /// The server would have to listen elsewhere.
    RestartRequired,
}

/// What the settings say of the hosts, in order.
pub open spec fn host_models(hosts: Seq<HostEntry>) -> Seq<crate::config::HostModel> {
    hosts.map_values(|entry: HostEntry| entry.config@)
}

#[verifier::loop_isolation(false)]
fn same_entries(a: &Vec<HostEntry>, b: &Vec<HostEntry>) -> (r: bool)
    ensures
        r == (host_models(a@) == host_models(b@)),
{
    if a.len() != b.len() {
        assert(host_models(a@).len() != host_models(b@).len());
        return false;
    }
    let mut i: usize = 0;
    while i < a.len()
        invariant
            i <= a@.len(),
            forall|k: int| 0 <= k < i ==> host_models(a@)[k] == host_models(b@)[k],
        decreases a@.len() - i,
    {
        if !a[i].config.same(&b[i].config) {
            assert(host_models(a@)[i as int] != host_models(b@)[i as int]);
            return false;
        }
        i += 1;
    }
    assert(host_models(a@) =~= host_models(b@));
    true
}

#[verifier::loop_isolation(false)]
fn same_binds(a: &Vec<BindAddress>, b: &Vec<BindAddress>) -> (r: bool)
    ensures
        r == (bind_models(a@) == bind_models(b@)),
{
    if a.len() != b.len() {
        assert(bind_models(a@).len() != bind_models(b@).len());
        return false;
    }
    let mut i: usize = 0;
    while i < a.len()
        invariant
            i <= a@.len(),
            forall|k: int| 0 <= k < i ==> bind_models(a@)[k] == bind_models(b@)[k],
        decreases a@.len() - i,
    {
        proof {
            crate::net::ip_ext(a@[i as int].ip, b@[i as int].ip);
        }
        if !crate::table::Key::same(&a[i].ip, &b[i].ip) || a[i].port != b[i].port {
            assert(bind_models(a@)[i as int] != bind_models(b@)[i as int]);
            return false;
        }
        i += 1;
    }
    assert(bind_models(a@) =~= bind_models(b@));
    true
}

/// The settings `file`, which are `out` with what is overridden, belong to the
/// running server: they are valid, and have its secret, its key pair and its
/// headers.
pub open spec fn belongs(runtime: ServerRuntime, file: AppConfig, out: AppConfig) -> bool {
    &&& file.fault() is None
    &&& secret_read(file.security.shared_secret@) == Ok::<Seq<u8>, Seq<char>>(
        runtime.handshake.psk@,
    )
    &&& is_server_only(file.client)
    &&& key_read(file.security.server_static_public_key@) == Ok::<Seq<u8>, Seq<char>>(
        runtime.handshake.identity.public@,
    )
    &&& headers_fault(header_models(file.security.custom_headers@)) is None
    &&& header_models(file.security.custom_headers@).to_multiset() == header_models(
        runtime.snapshot.headers@,
    ).to_multiset()
    &&& out.fault() is None
}

/// The version that a new catalogue gets: its own, unless that is the old one's.
pub open spec fn next_version(old_version: u64, new_version: u64) -> u64 {
    if new_version != old_version {
        new_version
    } else if old_version == u64::MAX {
        1
    } else {
        (old_version + 1) as u64
    }
}

/// Who may connect, and to which hosts, is what the settings say.
pub open spec fn admits_as(runtime: ServerRuntime, config: AppConfig) -> bool {
    &&& crate::security::all_enrolled(
        runtime.handshake.allowed_clients@,
        config.security.allowed_clients@,
    )
    &&& forall|key: [u8; 32]| #[trigger]
        access_of(runtime.policy.clients@, key) == granted(config.security.allowed_clients@, key)
    &&& runtime.policy.source_healthy
}

/// The policy is the one of the settings.
pub open spec fn follows(runtime: ServerRuntime, config: AppConfig) -> bool {
    is_snapshot_of(runtime.snapshot, config) && admits_as(runtime, config)
}

/// The number of a policy that takes the place of another.
pub open spec fn next_generation(generation: u64) -> u64 {
    if generation < u64::MAX {
        (generation + 1) as u64
    } else {
        generation
    }
}

/// What does not depend on the settings is as it was.
pub open spec fn same_state(a: ServerRuntime, b: ServerRuntime) -> bool {
    &&& a.replay_cache == b.replay_cache
    &&& a.probe_slots == b.probe_slots
    &&& a.metrics == b.metrics
    &&& a.handshakes == b.handshakes
    &&& a.pending_handshakes == b.pending_handshakes
    &&& a.ip_connections == b.ip_connections
    &&& a.client_connections == b.client_connections
    &&& a.handshake_rates == b.handshake_rates
    &&& a.request_rates == b.request_rates
    &&& a.books == b.books
    &&& a.overrides == b.overrides
}

/// The outcome of a second look at the settings.
pub open spec fn refreshed(
    before: ServerRuntime,
    file: AppConfig,
    out: AppConfig,
    after: ServerRuntime,
    change: PolicyChange,
) -> bool {
    &&& before.overrides.applied(file.server, out.server)
    &&& out == (AppConfig { server: out.server, ..file })
    &&& same_state(after, before)
    &&& if !belongs(before, file, out) {
        is_revoked(before, after, change)
    } else if binds_of(out.server) != bind_models(before.snapshot.bind_addrs@) {
        // The listeners stay until the server is started again, but whoever has
        // lost access has lost it now.
        &&& change == PolicyChange::RestartRequired
        &&& admits_as(after, out)
        &&& after.policy.generation == next_generation(before.policy.generation)
        &&& after == (ServerRuntime {
            restart_required: true,
            policy: after.policy,
            handshake: ServerHandshakeConfig {
                allowed_clients: after.handshake.allowed_clients,
                ..before.handshake
            },
            ..before
        })
    } else {
        let hosts_changed = host_models(after.snapshot.hosts@) != host_models(
            before.snapshot.hosts@,
        );
        let changed = !before.policy.source_healthy || hosts_changed || !same_grants(
            before.policy.clients@,
            after.policy.clients@,
        );
        &&& follows(after, out)
        &&& after.restart_required == before.restart_required
        &&& after.handshake == (ServerHandshakeConfig {
            allowed_clients: after.handshake.allowed_clients,
            ..before.handshake
        })
        &&& after.snapshot.catalog_version == if hosts_changed {
            next_version(
                before.snapshot.catalog_version,
                catalog_version_of(sorted_texts(host_ids_of(file.hosts@))),
            )
        } else {
            before.snapshot.catalog_version
        }
        &&& change == if changed {
            PolicyChange::Reloaded(file.security.allowed_clients@.len() as usize)
        } else {
            PolicyChange::Unchanged
        }
        &&& after.policy.generation == if changed {
            next_generation(before.policy.generation)
        } else {
            before.policy.generation
        }
    }
}

/// Every client's access was taken, and nothing else changed.
pub open spec fn is_revoked(
    before: ServerRuntime,
    after: ServerRuntime,
    change: PolicyChange,
) -> bool {
    &&& change == if before.policy.source_healthy {
        PolicyChange::Revoked
    } else {
        PolicyChange::StillRevoked
    }
    &&& !after.policy.source_healthy
    &&& forall|key: [u8; 32]| access_of(after.policy.clients@, key) is None
    &&& after.policy.generation == before.policy.generation
    &&& after == (ServerRuntime { policy: after.policy, ..before })
}

impl ServerRuntime {
    fn revoke(&mut self) -> (r: PolicyChange)
        requires
            old(self).wf(),
        ensures
            final(self).wf(),
            is_revoked(*old(self), *final(self), r),
    {
        if self.policy.revoke_all() {
            PolicyChange::Revoked
        } else {
            PolicyChange::StillRevoked
        }
    }

    fn settings_belong(&self, file: &AppConfig) -> (r: Option<Vec<Header>>)
        requires
            self.wf(),
        ensures
            match r {
                Some(headers) => {
                    &&& file.fault() is None
                    &&& secret_read(file.security.shared_secret@) == Ok::<Seq<u8>, Seq<char>>(
                        self.handshake.psk@,
                    )
                    &&& is_server_only(file.client)
                    &&& key_read(file.security.server_static_public_key@) == Ok::<
                        Seq<u8>,
                        Seq<char>,
                    >(self.handshake.identity.public@)
                    &&& headers_fault(header_models(file.security.custom_headers@)) is None
                    &&& header_models(file.security.custom_headers@).to_multiset() == header_models(
                        self.snapshot.headers@,
                    ).to_multiset()
                    &&& ascending(header_models(headers@))
                    &&& header_models(headers@).to_multiset() == header_models(
                        file.security.custom_headers@,
                    ).to_multiset()
                },
                None => forall|out: AppConfig| !belongs(*self, *file, out),
            },
    {
        if file.validate().is_err() || !server_only(&file.client) {
            return None;
        }
        let same_psk: bool = match file.secret_key() {
            Ok(psk) => {
                proof {
                    crate::octets::key_ext(psk, self.handshake.psk);
                }
                same_key(&psk, &self.handshake.psk)
            },
            Err(_) => false,
        };
        if !same_psk {
            return None;
        }
        let same_identity: bool = match crate::config::decode_key(
            &file.security.server_static_public_key,
        ) {
            Ok(key) => {
                proof {
                    crate::octets::key_ext(key, self.handshake.identity.public);
                }
                same_key(&key, &self.handshake.identity.public)
            },
            Err(_) => false,
        };
        if !same_identity {
            return None;
        }
        match canonical_copy(&file.security.custom_headers) {
            Ok(headers) => {
                if same_headers(&headers, &self.snapshot.headers) {
                    Some(headers)
                } else {
                    proof {
                        if header_models(headers@).to_multiset() == header_models(
                            self.snapshot.headers@,
                        ).to_multiset() {
                            crate::protocol::ascending_is_unique(
                                header_models(headers@),
                                header_models(self.snapshot.headers@),
                            );
                        }
                    }
                    None
                }
            },
            Err(_) => None,
        }
    }

    /// Looks at the settings again; `loaded` is nothing where they could not be
    /// read. Settings that do not belong to this server take the access of
    /// everyone. Sessions that began before a change are over. Settings with other
    /// listeners ask for a restart; who may connect is taken from them at once.
    pub fn refresh_access_policy(&mut self, loaded: Option<AppConfig>) -> (r: PolicyChange)
        requires
            old(self).wf(),
        ensures
            final(self).wf(),
            match loaded {
                None => same_state(*final(self), *old(self)) && is_revoked(
                    *old(self),
                    *final(self),
                    r,
                ),
                Some(file) => exists|out: AppConfig|
                    #[trigger] refreshed(*old(self), file, out, *final(self), r),
            },
    {
        let mut out: AppConfig = match loaded {
            Some(file) => file,
            None => {
                return self.revoke();
            },
        };
        let ghost file = out;
        let ghost before = *self;
        let belonging: Option<Vec<Header>> = self.settings_belong(&out);
        self.overrides.apply(&mut out);
        let headers: Vec<Header> = match belonging {
            Some(headers) => headers,
            None => {
                let r: PolicyChange = self.revoke();
                assert(refreshed(before, file, out, *self, r));
                return r;
            },
        };
        if out.validate().is_err() {
            let r: PolicyChange = self.revoke();
            assert(refreshed(before, file, out, *self, r));
            return r;
        }
        let host_ids: Vec<String> = collect_host_ids(&out.hosts);
        proof {
            clients_accepted(out, 0);
        }
        let enrolled: Vec<AllowedClientAuth> = match crate::security::enroll(
            &out.security.allowed_clients,
            &host_ids,
        ) {
            Ok(list) => list,
            Err(_) => {
                return self.revoke();
            },
        };
        let clients: Vec<ClientAccess> = match client_access_from_config(
            &out.security.allowed_clients,
        ) {
            Ok(clients) => clients,
            Err(_) => {
                proof {
                    enrolled_keys(enrolled@, out.security.allowed_clients@);
                }
                return self.revoke();
            },
        };
        let mut snapshot: Snapshot = match take_snapshot(&out, headers) {
            Some(snapshot) => snapshot,
            None => {
                return self.revoke();
            },
        };
        if !same_binds(&snapshot.bind_addrs, &self.snapshot.bind_addrs) {
            self.restart_required = true;
            self.handshake.allowed_clients = enrolled;
            self.policy.clients = clients;
            self.policy.source_healthy = true;
            if self.policy.generation < u64::MAX {
                self.policy.generation = self.policy.generation + 1;
            }
            assert(refreshed(before, file, out, *self, PolicyChange::RestartRequired));
            return PolicyChange::RestartRequired;
        }
        let hosts_changed: bool = !same_entries(&snapshot.hosts, &self.snapshot.hosts);
        if !hosts_changed {
            snapshot.catalog_version = self.snapshot.catalog_version;
        } else if snapshot.catalog_version == self.snapshot.catalog_version {
            if snapshot.catalog_version == u64::MAX {
                snapshot.catalog_version = 1;
            } else {
                snapshot.catalog_version = snapshot.catalog_version + 1;
            }
        }
        let changed: bool = !self.policy.source_healthy || hosts_changed || !same_access(
            &self.policy.clients,
            &clients,
        );
        let count: usize = out.security.allowed_clients.len();
        self.snapshot = snapshot;
        self.handshake.allowed_clients = enrolled;
        self.policy.clients = clients;
        self.policy.source_healthy = true;
        let r: PolicyChange = if changed {
            if self.policy.generation < u64::MAX {
                self.policy.generation = self.policy.generation + 1;
            }
            PolicyChange::Reloaded(count)
        } else {
            PolicyChange::Unchanged
        };
        assert(refreshed(before, file, out, *self, r));
        r
    }
}

proof fn enrolled_keys(list: Seq<AllowedClientAuth>, clients: Seq<AllowedClient>)
    requires
        crate::security::all_enrolled(list, clients),
    ensures
        crate::policy::keys_readable(clients),
{
    assert forall|i: int| 0 <= i < clients.len() implies key_read(
        (#[trigger] clients[i]).static_public_key@,
    ) is Ok by {
        assert(crate::security::is_enrolled(list[i], clients[i]));
    }
}

/// A change of any host changes the version of the catalogue, so that a request
/// made for the hosts as they were is refused as stale.
pub proof fn a_changed_host_changes_the_catalogue(
    before: ServerRuntime,
    file: AppConfig,
    out: AppConfig,
    after: ServerRuntime,
    change: PolicyChange,
)
    requires
        refreshed(before, file, out, after, change),
        host_models(after.snapshot.hosts@) != host_models(before.snapshot.hosts@),
    ensures
        after.snapshot.catalog_version != before.snapshot.catalog_version,
        change is Reloaded,
        before.policy.generation < u64::MAX ==> after.policy.generation
            != before.policy.generation,
{
}

/// Once the settings were read again a client has the access that they grant, and
/// none where they do not name it; nobody has any where the settings are unusable.
/// That holds whatever else has changed in them.
pub proof fn a_revocation_takes_effect(
    before: ServerRuntime,
    file: AppConfig,
    out: AppConfig,
    after: ServerRuntime,
    change: PolicyChange,
    key: [u8; 32],
)
    requires
        refreshed(before, file, out, after, change),
    ensures
        access_of(after.policy.clients@, key) == if belongs(before, file, out) {
            granted(file.security.allowed_clients@, key)
        } else {
            None
        },
        granted(file.security.allowed_clients@, key) is None ==> access_of(
            after.policy.clients@,
            key,
        ) is None,
{
}

} // verus!
