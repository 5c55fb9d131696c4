//! What each thing that is refused is answered.

use crate::channel::{record_in, ChannelModel};
use crate::config::{
    client_id_fault, endpoint_fault, has_control, host_id_of, hosts_fault, is_host_name, is_target,
    key_read, mac_read, pair_fault, secret_read, AllowedClient, AppConfig, HostConfig, ServerConfig,
};
use crate::crypto::hex_bytes;
use crate::forms::{
    client_endpoint_fault, credential_form_fault, host_form_fault, is_endpoint_host, is_form_id,
    listen_fault, port_read, skew_read, unsigned,
};
use crate::handshake::{keys_fault, prefix_fault, server_fault};
use crate::net::{ip_literal, v4_octets};
use crate::octets::is_zero;
use crate::policy::ServerFault;
use crate::private_file::{
    acl_fault, directory_fault, private_fault, AclFacts, AclFault, DirectoryFacts, DirectoryFault,
    FileFacts, Principal, PrivateFault,
};
use crate::protocol::{
    entries_fault, header_bytes, header_models, headers_fault, is_header, is_id, names_differ,
    operation_fault, ClientOperation, EventModel, HeaderModel, ProtocolError, ReplyModel,
};
use crate::security::{
    enrolment_fault, server_config_fault, weak_key, Identity, SecurityError, ServerHandshakeConfig,
};
use crate::server::{handshake_fault, is_server_only, runtime_fault, start_fault};
use crate::text::{byte_count, decimal, texts, trimmed};
use vstd::prelude::*;

verus! {

/// Too many headers, or too many bytes of them, break a limit; one that is no header, or
/// a name that comes twice, is a fault of the headers.
pub proof fn bad_headers_are_told_apart(headers: Seq<HeaderModel>)
    ensures
        ({
            let sound = (forall|i: int| 0 <= i < headers.len() ==> is_header(#[trigger] headers[i]))
                && (forall|i: int, j: int|
                0 <= i < j < headers.len() ==> #[trigger] headers[i].name
                    != #[trigger] headers[j].name);
            &&& headers_fault(headers) == Some(ProtocolError::Header) <==> headers.len() <= 32
                && !sound
            &&& headers_fault(headers) == Some(ProtocolError::Limit) <==> headers.len() > 32 || (
            sound && header_bytes(headers) > 4096)
            &&& headers_fault(headers) is None <==> headers.len() <= 32 && sound && header_bytes(
                headers,
            ) <= 4096
        }),
{
    if !names_differ(headers) {
        assert(exists|i: int, j: int|
            0 <= i < j < headers.len() && #[trigger] headers[i].name == #[trigger] headers[j].name);
    }
    if exists|i: int, j: int|
        0 <= i < j < headers.len() && #[trigger] headers[i].name == #[trigger] headers[j].name {
        let (i, j) = choose|i: int, j: int|
            0 <= i < j < headers.len() && #[trigger] headers[i].name == #[trigger] headers[j].name;
        assert(headers[i].name == headers[j].name);
        assert(!names_differ(headers));
    }
}

/// The first entry that is not in order decides: one without an identifier is refused for
/// that, one that comes again or is not sound for the reason of its list.
pub proof fn the_first_bad_entry_decides(
    ids: Seq<Seq<char>>,
    sound: Seq<bool>,
    other: ProtocolError,
    k: int,
    i: int,
)
    requires
        0 <= k <= i < ids.len(),
        sound.len() == ids.len(),
        forall|j: int|
            k <= j < i ==> is_id(#[trigger] ids[j]) && !ids.take(j).contains(ids[j]) && sound[j],
    ensures
        !is_id(ids[i]) ==> entries_fault(ids, sound, other, k) == Some(ProtocolError::Identifier),
        is_id(ids[i]) && (ids.take(i).contains(ids[i]) || !sound[i]) ==> entries_fault(
            ids,
            sound,
            other,
            k,
        ) == Some(other),
    decreases i - k,
{
    if k < i {
        assert(is_id(ids[k]) && !ids.take(k).contains(ids[k]) && sound[k]);
        the_first_bad_entry_decides(ids, sound, other, k + 1, i);
    }
}

/// A message of another version, without an identifier or a time, or with headers out of
/// order is refused for that.
pub proof fn a_bad_frame_is_told_apart(
    version: u16,
    request_id: Seq<u8>,
    issued_at_ms: u64,
    headers: Seq<HeaderModel>,
)
    ensures
        ({
            let fault = crate::protocol::envelope_fault(version, request_id, issued_at_ms, headers);
            let marked = !is_zero(request_id) && issued_at_ms != 0;
            &&& fault == Some(ProtocolError::Version) <==> version != 1
            &&& version == 1 && !marked ==> fault == Some(ProtocolError::Operation)
            &&& version == 1 && marked && headers_fault(headers) is Some ==> fault == headers_fault(
                headers,
            )
            &&& version == 1 && marked && headers_fault(headers) is None
                && !crate::protocol::ascending(headers) ==> fault == Some(ProtocolError::Operation)
        }),
{
}

/// A request for no host, or for too many, is no operation; neither is a wake without a
/// nonce, or one whose attempt and ticket do not go together.
pub proof fn a_bad_operation_is_told_apart(
    catalog_version: u64,
    host_ids: Vec<String>,
    attempt: u8,
    boot_nonce: [u8; 16],
    retry_ticket: Option<[u8; 32]>,
)
    ensures
        ({
            let ids = texts(host_ids@);
            let statuses = operation_fault(ClientOperation::GetStatuses { catalog_version, host_ids });
            let wake = operation_fault(
                ClientOperation::Wake {
                    catalog_version,
                    host_ids,
                    attempt,
                    boot_nonce,
                    retry_ticket,
                },
            );
            &&& catalog_version == 0 || ids.len() == 0 || ids.len() > 128 ==> statuses == Some(
                ProtocolError::Operation,
            ) && wake == Some(ProtocolError::Operation)
            &&& catalog_version != 0 && 0 < ids.len() <= 128 ==> statuses == entries_fault(
                ids,
                Seq::new(ids.len(), |i: int| true),
                ProtocolError::Operation,
                0,
            )
            &&& statuses is Some ==> wake == statuses
            &&& statuses is None && (is_zero(boot_nonce@) || !(attempt == 1 && retry_ticket is None
                || attempt == 2 && retry_ticket is Some)) ==> wake == Some(ProtocolError::Operation)
        }),
{
    let ids = texts(host_ids@);
    assert(ids.map_values(|id: Seq<char>| true) =~= Seq::new(ids.len(), |i: int| true));
}

/// A reply that breaks a bound is refused for a limit; a sighting of nothing for its
/// identifier, or else for its operation.
pub proof fn a_bad_reply_is_told_apart(reply: ReplyModel)
    ensures
        ({
            let fault = crate::protocol::event_fault(reply.request_id, reply.event);
            match reply.event {
                EventModel::Hosts { catalog_version, hosts } => catalog_version == 0 || hosts.len()
                    > 64 ==> fault == Some(ProtocolError::Limit),
                EventModel::Statuses { catalog_version, statuses } => catalog_version == 0
                    || statuses.len() > 64 ==> fault == Some(ProtocolError::Limit),
                EventModel::CommandExecuted {
                    operation_id,
                    attempt,
                    retry_ticket,
                    deadline_ms,
                    results,
                } => is_zero(operation_id@) || operation_id != reply.request_id || is_zero(
                    retry_ticket@,
                ) || deadline_ms == 0 || results.len() > 128 || results.len() == 0 || attempt == 0
                    || attempt > 2 ==> fault == Some(ProtocolError::Limit),
                EventModel::TargetOnline { operation_id, attempt, host_id, observed_at_ms } => {
                    &&& fault == Some(ProtocolError::Identifier) <==> !is_id(host_id)
                    &&& fault == Some(ProtocolError::Operation) <==> is_id(host_id) && (is_zero(
                        operation_id@,
                    ) || operation_id != reply.request_id || attempt == 0 || attempt > 2
                        || observed_at_ms == 0)
                },
                EventModel::Error { code, retryable } => fault is None,
            }
        }),
{
}

/// A key, and a secret, that cannot be read is complained of by its first fault: its
/// encoding, its digits, its length, or that it is zero.
pub proof fn a_bad_key_is_told_apart(text: Seq<char>)
    ensures
        ({
            let digits = hex_bytes(text.skip(4));
            let named = "hex:"@.is_prefix_of(text);
            &&& !named ==> key_read(text) == Err::<Seq<u8>, Seq<char>>(
                "key must use hex:<64 hex digits>"@,
            )
            &&& named && digits is None ==> key_read(text) == Err::<Seq<u8>, Seq<char>>(
                "key hex is invalid"@,
            )
            &&& named && digits is Some && digits->0.len() != 32 ==> key_read(text) == Err::<
                Seq<u8>,
                Seq<char>,
            >("key must contain exactly 32 bytes"@)
            &&& named && digits is Some && digits->0.len() == 32 && is_zero(digits->0) ==> key_read(
                text,
            ) == Err::<Seq<u8>, Seq<char>>("key cannot be all zero"@)
        }),
        ({
            let plain = trimmed(text);
            let digits = hex_bytes(plain.skip(4));
            let named = "hex:"@.is_prefix_of(plain);
            &&& !named ==> secret_read(text) == Err::<Seq<u8>, Seq<char>>(
                "shared secret must use hex:<64 hex digits>"@,
            )
            &&& named && digits is None ==> secret_read(text) == Err::<Seq<u8>, Seq<char>>(
                "shared secret hex is invalid"@,
            )
            &&& named && digits is Some && digits->0.len() != 32 ==> secret_read(text) == Err::<
                Seq<u8>,
                Seq<char>,
            >("shared secret must contain exactly 32 bytes"@)
            &&& named && digits is Some && digits->0.len() == 32 && is_zero(digits->0)
                ==> secret_read(text) == Err::<Seq<u8>, Seq<char>>(
                "shared secret cannot be all zero"@,
            )
        }),
{
}

/// The name of a host whose other fields are in order is complained of for what is wrong
/// with it, and so is each other field of a host with a good name.
pub proof fn a_bad_host_is_told_apart(host: HostConfig, public: bool)
    ensures
        ({
            let name = host.hostname@;
            let ip = ip_literal(trimmed(host.ip@));
            let named = is_host_name(trimmed(name)) && is_id(host_id_of(name));
            let labelled = byte_count(host.display_name@) <= 128 && !has_control(host.display_name@);
            let wired = mac_read(host.mac@) is Some;
            let placed = ip is Some && is_target(ip->0, host.wol_ipv6_interface, public);
            let ported = host.wol_port == 7 || host.wol_port == 9;
            let timed = 100 <= host.probe_timeout_ms <= 5000;
            &&& !is_host_name(trimmed(name)) ==> host.fault(public) == Some(
                "host name must be an ASCII DNS label (1-64 chars)"@,
            )
            &&& is_host_name(trimmed(name)) && !is_id(host_id_of(name)) ==> host.fault(public)
                == Some("host name must also be a valid protocol host id (1-64 bytes)"@)
            &&& named && !labelled ==> host.fault(public) == Some(
                "display name must be at most 128 bytes and contain no control characters"@,
            )
            &&& named && labelled && !wired ==> host.fault(public) == Some(
                "invalid MAC address: "@ + host.mac@,
            )
            &&& named && labelled && wired && ip is None ==> host.fault(public) == Some(
                name + " has an invalid IP address"@,
            )
            &&& named && labelled && wired && ip is Some && !placed ==> host.fault(public) == Some(
                name
                    + " must use a non-loopback LAN IP; link-local IPv6 also requires an interface index"@,
            )
            &&& named && labelled && wired && placed && !ported ==> host.fault(public) == Some(
                name + " WoL port must be 7 or 9"@,
            )
            &&& named && labelled && wired && placed && ported && !timed ==> host.fault(public)
                == Some(name + " probe timeout must be between 100 and 5000 ms"@)
            &&& named && labelled && wired && placed && ported && timed && 0 < host.probe_port < 1024
                ==> host.fault(public) == Some(name + " has an invalid probe port"@)
        }),
{
}

/// The first host that is not in order decides what is complained of.
pub proof fn the_first_bad_host_decides(
    hosts: Seq<HostConfig>,
    public: bool,
    k: int,
    i: int,
)
    requires
        0 <= k <= i < hosts.len(),
        forall|j: int|
            k <= j < i ==> (#[trigger] hosts[j]).fault(public) is None
                && !crate::config::host_ids_of(hosts.take(j)).contains(
                host_id_of(hosts[j].hostname@),
            ),
    ensures
        hosts[i].fault(public) is Some ==> hosts_fault(hosts, public, k) == hosts[i].fault(public),
        hosts[i].fault(public) is None && crate::config::host_ids_of(hosts.take(i)).contains(
            host_id_of(hosts[i].hostname@),
        ) ==> hosts_fault(hosts, public, k) == Some(
            "duplicate host name: "@ + hosts[i].hostname@,
        ),
    decreases i - k,
{
    if k < i {
        assert(hosts[k].fault(public) is None);
        the_first_bad_host_decides(hosts, public, k + 1, i);
    }
}

/// Addresses and ports to listen at, endpoints and identifiers are complained of by name.
pub proof fn bad_endpoints_are_told_apart(server: ServerConfig, id: Seq<char>, address: Seq<char>)
    ensures
        ({
            let bind = ip_literal(trimmed(server.bind_address@));
            let given = trimmed(server.bind_address@).len() > 0 && server.port != 0;
            &&& !given ==> server.fault() == Some("server bind address and port are required"@)
            &&& given && server.port < 1024 ==> server.fault() == Some(
                "server port must be 1024 or higher"@,
            )
            &&& given && server.port >= 1024 && bind is None ==> server.fault() == Some(
                "bind_address must be an IP literal"@,
            )
            &&& given && server.port >= 1024 && bind is Some && server.dual_stack && bind->0 is V4
                ==> server.fault() == Some("dual_stack requires an IPv6 bind address"@)
            &&& given && server.port >= 1024 && bind is Some && server.dual_stack && bind->0 is V6
                && v4_octets(trimmed(server.bind_address_v4@)) is None ==> server.fault() == Some(
                "dual-stack IPv4 bind address must be an IPv4 literal"@,
            )
        }),
        client_id_fault(id) is Some ==> client_id_fault(id) == Some(
            "client_id must be a canonical 1-64 byte identifier"@,
        ),
        endpoint_fault(address) is Some ==> endpoint_fault(address) == Some(
            "client address contains invalid characters"@,
        ),
{
}

/// Settings of another version are refused for it; else the listener is looked at first,
/// the limits, the hosts and clients, the endpoint and the keys after it.
pub proof fn the_first_bad_part_decides(config: AppConfig)
    ensures
        config.config_version != 1 ==> config.fault() == Some(
            "unsupported config version "@ + decimal(config.config_version as nat),
        ),
        config.config_version == 1 && config.server.fault() is Some ==> config.fault()
            == config.server.fault(),
        config.config_version == 1 && config.server.fault() is None
            && config.security.limits_fault() is Some ==> config.fault()
            == config.security.limits_fault(),
        config.config_version == 1 && config.server.fault() is None
            && config.security.limits_fault() is None && config.directory_fault() is Some
            ==> config.fault() == config.directory_fault(),
        config.config_version == 1 && config.server.fault() is None
            && config.security.limits_fault() is None && config.directory_fault() is None
            && config.client.fault() is Some ==> config.fault() == config.client.fault(),
{
}

/// A pair of keys of which one is missing, or which do not go together, is refused for it.
pub proof fn a_bad_pair_is_told_apart(private: Seq<char>, public: Seq<char>, name: Seq<char>)
    ensures
        (private.len() == 0) != (public.len() == 0) ==> pair_fault(private, public, name) == Some(
            name + " static key pair must contain both private and public keys"@,
        ),
        private.len() > 0 && public.len() > 0 && key_read(private) is Err ==> pair_fault(
            private,
            public,
            name,
        ) == Some(key_read(private)->Err_0),
        private.len() > 0 && public.len() > 0 && key_read(private) is Ok && public
            != crate::config::key_text(crate::crypto::x25519_public(key_read(private)->Ok_0))
            ==> pair_fault(private, public, name) == Some(
            name + " static public key does not match its private key"@,
        ),
{
}

/// A client that cannot be enrolled is refused by what is wrong with it: its name, its
/// key, or that it is there already or names unknown hosts.
pub proof fn a_client_is_refused_for_its_fault(
    clients: Seq<AllowedClient>,
    host_ids: Seq<Seq<char>>,
    k: int,
)
    requires
        0 <= k < clients.len(),
    ensures
        ({
            let id = host_id_of(clients[k].client_id@);
            let key = key_read(clients[k].static_public_key@);
            let named_before = crate::security::names_of(clients.take(k)).contains(id);
            let sound = key is Ok && !weak_key(key->Ok_0);
            let key_before = crate::security::keys_of(clients.take(k)).contains(key->Ok_0);
            let fault = enrolment_fault(clients, host_ids, k);
            &&& !is_id(id) ==> fault == Some(SecurityError::Handshake)
            &&& is_id(id) && named_before ==> fault == Some(SecurityError::Unauthorized)
            &&& is_id(id) && !named_before && !sound ==> fault == Some(SecurityError::Identity)
            &&& is_id(id) && !named_before && sound && (key_before || !crate::security::hosts_known(
                clients[k],
                host_ids,
            )) ==> fault == Some(SecurityError::Unauthorized)
            &&& is_id(id) && !named_before && sound && !key_before && crate::security::hosts_known(
                clients[k],
                host_ids,
            ) ==> fault == enrolment_fault(clients, host_ids, k + 1)
        }),
{
}

/// A secret of zeros, or a weak key, is a fault of the identity; then the headers and the
/// clients are looked at.
pub proof fn a_bad_handshake_is_told_apart(
    psk: Seq<u8>,
    identity: Identity,
    config: ServerHandshakeConfig,
    clients: Seq<AllowedClient>,
    host_ids: Seq<Seq<char>>,
    message: Seq<u8>,
)
    ensures
        ({
            let fault = server_config_fault(psk, identity, config.headers@, clients, host_ids);
            let weak = is_zero(psk) || weak_key(identity.public@);
            let headers = headers_fault(header_models(config.headers@));
            &&& weak ==> fault == Some(SecurityError::Identity)
            &&& !weak && headers is Some ==> fault == Some(SecurityError::Protocol(headers->0))
            &&& !weak && headers is None ==> fault == enrolment_fault(clients, host_ids, 0)
        }),
        keys_fault(psk, identity) is Some ==> keys_fault(psk, identity) == Some(
            SecurityError::Identity,
        ),
        keys_fault(psk, identity) is None <==> !is_zero(psk) && !weak_key(identity.public@)
            && identity.sound(),
        prefix_fault(message) == Some(SecurityError::Handshake) <==> message.len() < 32,
        prefix_fault(message) == Some(SecurityError::Identity) <==> message.len() >= 32 && weak_key(
            message.take(32),
        ),
        ({
            let headers = headers_fault(header_models(config.headers@));
            let fault = server_fault(config, message);
            &&& headers is Some ==> fault == Some(SecurityError::Protocol(headers->0))
            &&& headers is None && keys_fault(config.psk@, config.identity) is Some ==> fault == Some(
                SecurityError::Identity,
            )
            &&& headers is None && keys_fault(config.psk@, config.identity) is None ==> fault
                == prefix_fault(message)
        }),
{
}

/// What cannot be taken out of a channel is refused for the transport, for what it holds,
/// or for its place.
pub proof fn a_bad_record_is_told_apart(channel: ChannelModel, plain: Seq<u8>)
    ensures
        channel.opened(None) == Err::<Seq<u8>, SecurityError>(SecurityError::Transport),
        record_in(plain) is Err ==> channel.opened(Some(plain)) == Err::<Seq<u8>, SecurityError>(
            SecurityError::Protocol(record_in(plain)->Err_0),
        ),
        record_in(plain) is Ok && channel.opened(Some(plain)) is Err ==> channel.opened(Some(plain))
            == Err::<Seq<u8>, SecurityError>(SecurityError::Sequence),
        plain.len() == 0 || plain.len() > 65536 ==> record_in(plain) == Err::<
            crate::channel::RecordModel,
            ProtocolError,
        >(ProtocolError::Limit),
        1 <= plain.len() <= 65536 && record_in(plain) is Err ==> record_in(plain) == Err::<
            crate::channel::RecordModel,
            ProtocolError,
        >(ProtocolError::Operation),
{
}

/// A server that does not start says why: its settings, that they are those of a client,
/// or its keys and headers.
pub proof fn a_server_says_why_it_does_not_start(
    config: AppConfig,
    out: AppConfig,
    handshake: ServerHandshakeConfig,
)
    ensures
        ({
            let private = key_read(out.security.server_static_private_key@);
            let public = key_read(out.security.server_static_public_key@);
            let headers = headers_fault(header_models(out.security.custom_headers@));
            let paired = private is Ok && public is Ok && public->Ok_0
                == crate::crypto::x25519_public(private->Ok_0);
            &&& !paired ==> handshake_fault(out) == Some(SecurityError::Identity)
            &&& paired && headers is Some ==> handshake_fault(out) == Some(
                SecurityError::Protocol(headers->0),
            )
        }),
        config.fault() is Some ==> start_fault(config, out) == Some(
            ServerFault::Config(config.fault()->0),
        ) && runtime_fault(config, handshake) == Some(ServerFault::Config(config.fault()->0)),
        config.fault() is None && !is_server_only(config.client) ==> start_fault(config, out)
            == Some(
            ServerFault::Invalid(
                "server mode requires a server-only configuration file; client settings were found"@,
            ),
        ) && runtime_fault(config, handshake) == Some(
            ServerFault::Invalid("server runtime requires a server-only configuration"@),
        ),
        config.fault() is None && is_server_only(config.client) && out.fault() is Some
            ==> start_fault(config, out) == Some(ServerFault::Config(out.fault()->0)),
        config.fault() is None && is_server_only(config.client) && out.fault() is None
            && handshake_fault(out) is Some ==> start_fault(config, out) == Some(
            ServerFault::Security(handshake_fault(out)->0),
        ),
{
}

/// A file that is none, or too long, is refused for its shape, one that others reach for
/// that; so are directories and access lists.
pub proof fn an_unsafe_file_is_told_apart(
    file: FileFacts,
    limit: u64,
    user: u32,
    directory: DirectoryFacts,
    list: AclFacts,
)
    ensures
        private_fault(file, limit, user) == Some(PrivateFault::Shape) <==> !file.is_file
            || file.length > limit,
        directory_fault(directory) == Some(DirectoryFault::Shape) <==> directory.is_symlink
            || !directory.is_directory,
        acl_fault(list) == Some(AclFault::HardLinks) ==> list.links != 1,
        list.links != 1 ==> acl_fault(list) == Some(AclFault::HardLinks),
        list.links == 1 && (list.owner is None || list.entries is None) ==> acl_fault(list) == Some(
            AclFault::Unrestricted,
        ),
        list.links == 1 && list.entries is Some && list.owner is Some && list.owner->0
            != Principal::CurrentUser && list.owner->0 != Principal::System ==> acl_fault(list)
            == Some(AclFault::Owner),
{
    if list.links == 1 && list.entries is Some {
        entries_have_one_name(list.entries->0@, 0);
    }
}

proof fn entries_have_one_name(entries: Seq<crate::private_file::AclEntry>, k: int)
    requires
        0 <= k <= entries.len(),
    ensures
        crate::private_file::entries_fault(entries, k) != Some(AclFault::HardLinks),
    decreases entries.len() - k,
{
    if k < entries.len() {
        entries_have_one_name(entries, k + 1);
    }
}

/// A number that is none is complained of otherwise than one out of its range.
pub proof fn a_bad_number_is_told_apart(text: Seq<char>)
    ensures
        unsigned(text, 65535) is None ==> port_read(text) == Err::<u16, Seq<char>>(
            "端口必须是 1024 到 65535 的整数"@,
        ),
        unsigned(text, 65535) is Some && port_read(text) is Err ==> port_read(text) == Err::<
            u16,
            Seq<char>,
        >("端口必须在 1024 到 65535 之间"@),
        unsigned(text, u64::MAX as nat) is None ==> skew_read(text) == Err::<u64, Seq<char>>(
            "时钟容差必须是 1 到 60 的整数"@,
        ),
        unsigned(text, u64::MAX as nat) is Some && skew_read(text) is Err ==> skew_read(text)
            == Err::<u64, Seq<char>>("时钟容差必须在 1 到 60 秒之间"@),
{
}

/// A form is complained of by its first field that is not in order.
pub proof fn a_bad_field_is_told_apart(
    values: Seq<Seq<char>>,
    address: Seq<char>,
    port: Seq<char>,
    label: Seq<char>,
    output: Seq<char>,
    allowed: nat,
)
    ensures
        values.len() != 5 ==> host_form_fault(values) == Some(
            "Host ID、名称、MAC 和 IP 都不能为空"@,
        ),
        ({
            let full = values.len() == 5 && trimmed(values[0]).len() > 0 && trimmed(values[1]).len()
                > 0 && trimmed(values[2]).len() > 0 && trimmed(values[3]).len() > 0;
            let named = is_form_id(values[0]);
            let labelled = byte_count(values[1]) <= 128 && !has_control(values[1]);
            let wired = byte_count(values[2]) <= 20 && mac_read(values[2]) is Some;
            &&& !full ==> host_form_fault(values) == Some(
                "Host ID、名称、MAC 和 IP 都不能为空"@,
            )
            &&& full && !named ==> host_form_fault(values) == Some(
                "Host ID 只能使用字母、数字、-、_，且首尾必须是字母或数字"@,
            )
            &&& full && named && !labelled ==> host_form_fault(values) == Some(
                "显示名称过长或包含控制字符"@,
            )
            &&& full && named && labelled && !wired ==> host_form_fault(values) == Some(
                "MAC 地址格式无效，应包含 12 个十六进制数字"@,
            )
            &&& full && named && labelled && wired && ip_literal(values[3]) is None
                ==> host_form_fault(values) == Some("IP 地址格式无效"@)
            &&& full && named && labelled && wired && ip_literal(values[3]) is Some && unsigned(
                values[4],
                4294967295,
            ) is None ==> host_form_fault(values) == Some(
                "IPv6 网卡索引必须是 0 到 4294967295 的整数"@,
            )
        }),
        address.len() == 0 ==> client_endpoint_fault(address, port) == Some(
            "服务端地址不能为空"@,
        ),
        address.len() > 0 && (byte_count(address) > 253 || !is_endpoint_host(address))
            ==> client_endpoint_fault(address, port) == Some(
            "服务端地址必须是有效的 IP 或 DNS 主机名，不能包含协议或路径"@,
        ),
        address.len() > 0 && byte_count(address) <= 253 && is_endpoint_host(address) && port_read(
            port,
        ) is Err ==> client_endpoint_fault(address, port) == Some(port_read(port)->Err_0),
        trimmed(label).len() == 0 ==> credential_form_fault(label, output, allowed) == Some(
            "凭据标签不能为空"@,
        ),
        trimmed(label).len() > 0 && (byte_count(trimmed(label)) > 128 || has_control(
            trimmed(label),
        )) ==> credential_form_fault(label, output, allowed) == Some(
            "凭据标签过长或包含控制字符"@,
        ),
        trimmed(label).len() > 0 && byte_count(trimmed(label)) <= 128 && !has_control(
            trimmed(label),
        ) && allowed == 0 ==> credential_form_fault(label, output, allowed) == Some(
            "至少允许一台主机"@,
        ),
        trimmed(address).len() == 0 ==> listen_fault(address, None) == Some(
            "监听地址不能为空"@,
        ),
        trimmed(address).len() > 0 && ip_literal(trimmed(address)) is None ==> listen_fault(
            address,
            None,
        ) == Some("监听地址必须是有效的 IPv4 或 IPv6 地址"@),
        ip_literal(trimmed(address)) is Some && ip_literal(trimmed(address))->0 is V4 && trimmed(
            address,
        ).len() > 0 ==> listen_fault(address, Some(true)) == Some(
            "该字段只能填写 IPv6 地址"@,
        ),
        ip_literal(trimmed(address)) is Some && ip_literal(trimmed(address))->0 is V6 && trimmed(
            address,
        ).len() > 0 ==> listen_fault(address, Some(false)) == Some(
            "该字段只能填写 IPv4 地址"@,
        ),
{
}

} // verus!
