//! Which settings are valid.

use crate::config::{
    allowed_hosts_fault, clients_fault, compact, each_header_fault, has_control, header_fault,
    headers_fault, host_id_of, host_ids_of, hosts_fault, is_host_name, is_target, key_read,
    low_order, mac_read, pair_fault, secret_read, AllowedClient, AppConfig, ClientConfig,
    HostConfig, SecurityConfig, ServerConfig,
};
use crate::crypto::{hex_bytes, x25519_public};
use crate::net::{ip_literal, v4_octets, IpModel};
use crate::protocol::{
    header_bytes, header_models, is_header_name, is_header_value, is_id, is_reserved_name,
    HeaderModel,
};
use crate::text::{byte_count, lowered, texts, trimmed};
use vstd::prelude::*;

verus! {

/// A key is read exactly from a text that begins with `hex:` and goes on with the
/// hexadecimal digits of 32 bytes, not all zero.
pub proof fn a_key_is_read_from_its_digits(text: Seq<char>, bytes: Seq<u8>)
    ensures
        key_read(text) == Ok::<Seq<u8>, Seq<char>>(bytes) <==> "hex:"@.is_prefix_of(text)
            && hex_bytes(text.skip(4)) == Some(bytes) && bytes.len() == 32 && exists|i: int|
            0 <= i < 32 && #[trigger] bytes[i] != 0,
{
}

/// A secret is read like a key, but for the blanks around it.
pub proof fn a_secret_is_read_like_a_key(text: Seq<char>, bytes: Seq<u8>)
    ensures
        secret_read(text) == Ok::<Seq<u8>, Seq<char>>(bytes) <==> key_read(trimmed(text)) == Ok::<
            Seq<u8>,
            Seq<char>,
        >(bytes),
{
}

proof fn compact_is_filtered(text: Seq<char>)
    ensures
        compact(text) == text.filter(|c: char| c != ':' && c != '-' && c != '.' && c != ' '),
    decreases text.len(),
{
    reveal(Seq::filter);
    if text.len() > 0 {
        compact_is_filtered(text.drop_last());
    }
}

/// A MAC address is read from twelve hexadecimal digits, whatever separates them,
/// and is one of a single card: not zero, and not of a group.
pub proof fn a_mac_is_twelve_digits(text: Seq<char>, mac: Seq<u8>)
    ensures
        ({
            let digits = text.filter(|c: char| c != ':' && c != '-' && c != '.' && c != ' ');
            mac_read(text) == Some(mac) <==> hex_bytes(digits) == Some(mac) && mac.len() == 6
                && mac[0] % 2 == 0 && exists|i: int| 0 <= i < 6 && #[trigger] mac[i] != 0
        }),
{
    compact_is_filtered(text);
    let zero = seq![0u8, 0, 0, 0, 0, 0];
    let ones = seq![0xffu8, 0xff, 0xff, 0xff, 0xff, 0xff];
    if mac.len() == 6 {
        if mac == zero {
            assert forall|i: int| 0 <= i < 6 implies #[trigger] mac[i] == 0 by {}
        }
        if mac == ones {
            assert(mac[0] == 0xff);
        }
        if !(exists|i: int| 0 <= i < 6 && #[trigger] mac[i] != 0) {
            assert(mac =~= zero);
        }
    }
}

/// A host of the settings is accepted exactly if its name, its label, its card, its
/// address, its ports and its time limit are.
pub proof fn a_host_is_valid_exactly_if_its_parts_are(host: HostConfig, allow_public: bool)
    ensures
        host.fault(allow_public) is None <==> {
            let ip = ip_literal(trimmed(host.ip@));
            &&& is_host_name(trimmed(host.hostname@))
            &&& is_id(lowered(trimmed(host.hostname@)))
            &&& byte_count(host.display_name@) <= 128
            &&& !has_control(host.display_name@)
            &&& mac_read(host.mac@) is Some
            &&& ip is Some
            &&& is_target(ip->0, host.wol_ipv6_interface, allow_public)
            &&& host.wol_port == 7 || host.wol_port == 9
            &&& 100 <= host.probe_timeout_ms <= 5000
            &&& host.probe_port == 0 || host.probe_port >= 1024
        },
{
}

/// A host can be woken exactly at an address of one machine: not the loopback, no
/// group, nothing special; on the local network unless others are allowed; and on a
/// link only with its interface.
pub proof fn a_target_is_one_machine(ip: IpModel, interface: u32, allow_public: bool)
    ensures
        is_target(ip, interface, allow_public) <==> {
            let plain = ip.unmapped();
            &&& !plain.is_unspecified()
            &&& !plain.is_multicast()
            &&& !plain.is_loopback()
            &&& !plain.is_v4_special()
            &&& plain.is_v6_link_local() ==> interface != 0
            &&& plain.is_lan() || plain.is_v6_link_local() || allow_public
        },
{
}

/// The host at a place is valid and not named before.
spec fn is_new_host(hosts: Seq<HostConfig>, allow_public: bool, i: int) -> bool {
    hosts[i].fault(allow_public) is None && forall|j: int|
        0 <= j < i ==> host_id_of((#[trigger] hosts[j]).hostname@) != host_id_of(hosts[i].hostname@)
}

#[verifier::spinoff_prover]
proof fn the_rest_are_new_hosts(hosts: Seq<HostConfig>, allow_public: bool, k: int)
    requires
        0 <= k <= hosts.len(),
    ensures
        hosts_fault(hosts, allow_public, k) is None <==> forall|i: int|
            k <= i < hosts.len() ==> #[trigger] is_new_host(hosts, allow_public, i),
    decreases hosts.len() - k,
{
    if k < hosts.len() {
        the_rest_are_new_hosts(hosts, allow_public, k + 1);
        let before = host_ids_of(hosts.take(k));
        let id = host_id_of(hosts[k].hostname@);
        assert forall|j: int| 0 <= j < k implies #[trigger] before[j] == host_id_of(
            hosts[j].hostname@,
        ) by {
            assert(hosts.take(k)[j] == hosts[j]);
        }
        if before.contains(id) {
            let j = choose|j: int| 0 <= j < before.len() && before[j] == id;
            assert(host_id_of(hosts[j].hostname@) == id);
            assert(!is_new_host(hosts, allow_public, k));
        } else {
            assert forall|j: int| 0 <= j < k implies host_id_of((#[trigger] hosts[j]).hostname@)
                != id by {
                assert(before[j] != id);
            }
        }
        if hosts_fault(hosts, allow_public, k) is None {
            assert forall|i: int| k <= i < hosts.len() implies #[trigger] is_new_host(
                hosts,
                allow_public,
                i,
            ) by {
                if i > k {
                    assert(hosts_fault(hosts, allow_public, k + 1) is None);
                }
            }
        } else if is_new_host(hosts, allow_public, k) {
            assert(hosts_fault(hosts, allow_public, k + 1) is Some);
            let i = choose|i: int| k + 1 <= i < hosts.len() && !is_new_host(hosts, allow_public, i);
            assert(!is_new_host(hosts, allow_public, i));
        }
    }
}

/// The hosts of the settings are accepted exactly if each of them is valid and no
/// two have the same name.
pub proof fn hosts_are_valid_exactly_if_each_is(hosts: Seq<HostConfig>, allow_public: bool)
    ensures
        hosts_fault(hosts, allow_public, 0) is None <==> {
            &&& forall|i: int|
                0 <= i < hosts.len() ==> (#[trigger] hosts[i]).fault(allow_public) is None
            &&& forall|i: int, j: int|
                0 <= j < i < hosts.len() ==> host_id_of((#[trigger] hosts[i]).hostname@)
                    != host_id_of((#[trigger] hosts[j]).hostname@)
        },
{
    the_rest_are_new_hosts(hosts, allow_public, 0);
    if hosts_fault(hosts, allow_public, 0) is None {
        assert forall|i: int| 0 <= i < hosts.len() implies (#[trigger] hosts[i]).fault(
            allow_public,
        ) is None by {
            assert(is_new_host(hosts, allow_public, i));
        }
        assert forall|i: int, j: int| 0 <= j < i < hosts.len() implies host_id_of(
            (#[trigger] hosts[i]).hostname@,
        ) != host_id_of((#[trigger] hosts[j]).hostname@) by {
            assert(is_new_host(hosts, allow_public, i));
        }
    } else {
        let i = choose|i: int| 0 <= i < hosts.len() && !is_new_host(hosts, allow_public, i);
        assert(!is_new_host(hosts, allow_public, i));
    }
}

/// The host at a place of a client's list is known and not named before.
spec fn is_new_name(allowed: Seq<Seq<char>>, host_ids: Seq<Seq<char>>, i: int) -> bool {
    host_ids.contains(host_id_of(allowed[i])) && forall|j: int|
        0 <= j < i ==> host_id_of(#[trigger] allowed[j]) != host_id_of(allowed[i])
}

#[verifier::spinoff_prover]
proof fn the_rest_are_new_names(
    client_id: Seq<char>,
    allowed: Seq<Seq<char>>,
    host_ids: Seq<Seq<char>>,
    k: int,
)
    requires
        0 <= k <= allowed.len(),
    ensures
        allowed_hosts_fault(client_id, allowed, host_ids, k) is None <==> forall|i: int|
            k <= i < allowed.len() ==> #[trigger] is_new_name(allowed, host_ids, i),
    decreases allowed.len() - k,
{
    if k < allowed.len() {
        the_rest_are_new_names(client_id, allowed, host_ids, k + 1);
        let before = crate::config::normal_ids(allowed.take(k));
        let id = host_id_of(allowed[k]);
        assert forall|j: int| 0 <= j < k implies #[trigger] before[j] == host_id_of(allowed[j]) by {
            assert(allowed.take(k)[j] == allowed[j]);
        }
        if before.contains(id) {
            let j = choose|j: int| 0 <= j < before.len() && before[j] == id;
            assert(host_id_of(allowed[j]) == id);
            assert(!is_new_name(allowed, host_ids, k));
        } else {
            assert forall|j: int| 0 <= j < k implies host_id_of(#[trigger] allowed[j]) != id by {
                assert(before[j] != id);
            }
        }
        if allowed_hosts_fault(client_id, allowed, host_ids, k) is None {
            assert forall|i: int| k <= i < allowed.len() implies #[trigger] is_new_name(
                allowed,
                host_ids,
                i,
            ) by {
                if i > k {
                    assert(allowed_hosts_fault(client_id, allowed, host_ids, k + 1) is None);
                }
            }
        } else if is_new_name(allowed, host_ids, k) {
            assert(allowed_hosts_fault(client_id, allowed, host_ids, k + 1) is Some);
            let i = choose|i: int| k + 1 <= i < allowed.len() && !is_new_name(allowed, host_ids, i);
            assert(!is_new_name(allowed, host_ids, i));
        }
    }
}

/// A client of the settings is accepted exactly if its identifier is one, its key
/// can be read and is not of low order, and it names at most 256 hosts, each known
/// and none twice.
pub proof fn a_client_is_valid_exactly_if_its_parts_are(
    client: AllowedClient,
    host_ids: Seq<Seq<char>>,
)
    ensures
        client.fault(host_ids) is None <==> {
            &&& trimmed(client.client_id@) == client.client_id@
            &&& is_id(lowered(client.client_id@))
            &&& key_read(client.static_public_key@) is Ok
            &&& !low_order(key_read(client.static_public_key@)->Ok_0)
            &&& client.allowed_hosts@.len() <= 256
            &&& forall|i: int|
                0 <= i < client.allowed_hosts@.len() ==> host_ids.contains(
                    host_id_of((#[trigger] client.allowed_hosts@[i])@),
                )
            &&& forall|i: int, j: int|
                0 <= j < i < client.allowed_hosts@.len() ==> host_id_of(
                    (#[trigger] client.allowed_hosts@[i])@,
                ) != host_id_of((#[trigger] client.allowed_hosts@[j])@)
        },
{
    let names = texts(client.allowed_hosts@);
    the_rest_are_new_names(client.client_id@, names, host_ids, 0);
    assert forall|i: int| 0 <= i < names.len() implies names[i] == (
    #[trigger] client.allowed_hosts@[i])@ by {}
    if allowed_hosts_fault(client.client_id@, names, host_ids, 0) is None {
        assert forall|i: int| 0 <= i < client.allowed_hosts@.len() implies host_ids.contains(
            host_id_of((#[trigger] client.allowed_hosts@[i])@),
        ) by {
            assert(is_new_name(names, host_ids, i));
        }
        assert forall|i: int, j: int| 0 <= j < i < client.allowed_hosts@.len() implies host_id_of(
            (#[trigger] client.allowed_hosts@[i])@,
        ) != host_id_of((#[trigger] client.allowed_hosts@[j])@) by {
            assert(is_new_name(names, host_ids, i));
            assert(names[j] == client.allowed_hosts@[j]@);
        }
    } else {
        let i = choose|i: int| 0 <= i < names.len() && !is_new_name(names, host_ids, i);
        assert(!is_new_name(names, host_ids, i));
        assert(names[i] == client.allowed_hosts@[i]@);
        if host_ids.contains(host_id_of(names[i])) {
            let j = choose|j: int|
                0 <= j < i && host_id_of(#[trigger] names[j]) == host_id_of(names[i]);
            assert(names[j] == client.allowed_hosts@[j]@);
        }
    }
}

/// The client at a place is valid and shares nothing with those before it.
spec fn is_new_client(clients: Seq<AllowedClient>, host_ids: Seq<Seq<char>>, i: int) -> bool {
    clients[i].fault(host_ids) is None && forall|j: int|
        0 <= j < i ==> lowered((#[trigger] clients[j]).client_id@) != lowered(clients[i].client_id@)
            && key_read(clients[j].static_public_key@)->Ok_0 != key_read(
            clients[i].static_public_key@,
        )->Ok_0
}

#[verifier::spinoff_prover]
proof fn the_rest_are_new_clients(
    clients: Seq<AllowedClient>,
    host_ids: Seq<Seq<char>>,
    k: int,
)
    requires
        0 <= k <= clients.len(),
    ensures
        clients_fault(clients, host_ids, k) is None <==> forall|i: int|
            k <= i < clients.len() ==> #[trigger] is_new_client(clients, host_ids, i),
    decreases clients.len() - k,
{
    if k < clients.len() {
        the_rest_are_new_clients(clients, host_ids, k + 1);
        let names = crate::config::client_ids_of(clients.take(k));
        let keys = crate::config::client_keys_of(clients.take(k));
        let name = lowered(clients[k].client_id@);
        let key = key_read(clients[k].static_public_key@)->Ok_0;
        assert forall|j: int| 0 <= j < k implies names[j] == lowered(
            (#[trigger] clients[j]).client_id@,
        ) && keys[j] == key_read(clients[j].static_public_key@)->Ok_0 by {
            assert(clients.take(k)[j] == clients[j]);
        }
        if names.contains(name) {
            let j = choose|j: int| 0 <= j < names.len() && names[j] == name;
            assert(lowered(clients[j].client_id@) == name);
            assert(!is_new_client(clients, host_ids, k));
        } else if keys.contains(key) {
            let j = choose|j: int| 0 <= j < keys.len() && keys[j] == key;
            assert(key_read(clients[j].static_public_key@)->Ok_0 == key);
            assert(!is_new_client(clients, host_ids, k));
        } else {
            assert forall|j: int| 0 <= j < k implies lowered((#[trigger] clients[j]).client_id@)
                != name && key_read(clients[j].static_public_key@)->Ok_0 != key by {
                assert(names[j] != name);
                assert(keys[j] != key);
            }
        }
        if clients_fault(clients, host_ids, k) is None {
            assert forall|i: int| k <= i < clients.len() implies #[trigger] is_new_client(
                clients,
                host_ids,
                i,
            ) by {
                if i > k {
                    assert(clients_fault(clients, host_ids, k + 1) is None);
                }
            }
        } else if is_new_client(clients, host_ids, k) {
            assert(clients_fault(clients, host_ids, k + 1) is Some);
            let i = choose|i: int| k + 1 <= i < clients.len() && !is_new_client(clients, host_ids, i);
            assert(!is_new_client(clients, host_ids, i));
        }
    }
}

/// The clients of the settings are accepted exactly if each of them is valid and no
/// two have the same identifier or the same key.
pub proof fn clients_are_valid_exactly_if_each_is(
    clients: Seq<AllowedClient>,
    host_ids: Seq<Seq<char>>,
)
    ensures
        clients_fault(clients, host_ids, 0) is None <==> {
            &&& forall|i: int|
                0 <= i < clients.len() ==> (#[trigger] clients[i]).fault(host_ids) is None
            &&& forall|i: int, j: int|
                0 <= j < i < clients.len() ==> lowered((#[trigger] clients[i]).client_id@)
                    != lowered((#[trigger] clients[j]).client_id@) && key_read(
                    clients[i].static_public_key@,
                )->Ok_0 != key_read(clients[j].static_public_key@)->Ok_0
        },
{
    the_rest_are_new_clients(clients, host_ids, 0);
    if clients_fault(clients, host_ids, 0) is None {
        assert forall|i: int| 0 <= i < clients.len() implies (#[trigger] clients[i]).fault(
            host_ids,
        ) is None by {
            assert(is_new_client(clients, host_ids, i));
        }
        assert forall|i: int, j: int| 0 <= j < i < clients.len() implies lowered(
            (#[trigger] clients[i]).client_id@,
        ) != lowered((#[trigger] clients[j]).client_id@) && key_read(clients[i].static_public_key@)->Ok_0
            != key_read(clients[j].static_public_key@)->Ok_0 by {
            assert(is_new_client(clients, host_ids, i));
        }
    } else {
        let i = choose|i: int| 0 <= i < clients.len() && !is_new_client(clients, host_ids, i);
        assert(!is_new_client(clients, host_ids, i));
    }
}

proof fn the_rest_are_headers(headers: Seq<HeaderModel>, k: int)
    requires
        0 <= k <= headers.len(),
    ensures
        each_header_fault(headers, k) is None <==> forall|i: int|
            k <= i < headers.len() ==> header_fault(
                (#[trigger] headers[i]).name,
                headers[i].value,
            ) is None,
    decreases headers.len() - k,
{
    if k < headers.len() {
        the_rest_are_headers(headers, k + 1);
        if each_header_fault(headers, k) is None {
            assert forall|i: int| k <= i < headers.len() implies header_fault(
                (#[trigger] headers[i]).name,
                headers[i].value,
            ) is None by {
                if i > k {
                    assert(each_header_fault(headers, k + 1) is None);
                }
            }
        } else if header_fault(headers[k].name, headers[k].value) is None {
            assert(each_header_fault(headers, k + 1) is Some);
            let i = choose|i: int|
                k + 1 <= i < headers.len() && !(header_fault(
                    (#[trigger] headers[i]).name,
                    headers[i].value,
                ) is None);
            assert(!(header_fault(headers[i].name, headers[i].value) is None));
        }
    }
}

/// Custom headers are accepted exactly if there are at most 32 of them, of at most
/// 4096 bytes together, each with a name and a value that can be sent and a name
/// that is not reserved.
pub proof fn headers_are_valid_exactly_if_each_is(headers: Seq<HeaderModel>)
    ensures
        headers_fault(headers) is None <==> {
            &&& forall|i: int|
                0 <= i < headers.len() ==> is_header_name((#[trigger] headers[i]).name)
                    && is_header_value(headers[i].value) && !is_reserved_name(headers[i].name)
            &&& headers.len() <= 32
            &&& header_bytes(headers) <= 4096
        },
{
    the_rest_are_headers(headers, 0);
    if each_header_fault(headers, 0) is None {
        assert forall|i: int| 0 <= i < headers.len() implies is_header_name(
            (#[trigger] headers[i]).name,
        ) && is_header_value(headers[i].value) && !is_reserved_name(headers[i].name) by {
            assert(header_fault(headers[i].name, headers[i].value) is None);
        }
    } else {
        let i = choose|i: int|
            0 <= i < headers.len() && !(header_fault(
                (#[trigger] headers[i]).name,
                headers[i].value,
            ) is None);
        assert(!(header_fault(headers[i].name, headers[i].value) is None));
    }
}

/// A listener is accepted exactly if its port is free for all, its address is one,
/// and for two sockets one is IPv6 and the other IPv4.
pub proof fn a_listener_is_valid_exactly_if_its_parts_are(server: ServerConfig)
    ensures
        server.fault() is None <==> {
            let bind = ip_literal(trimmed(server.bind_address@));
            &&& trimmed(server.bind_address@).len() > 0
            &&& server.port >= 1024
            &&& bind is Some
            &&& server.dual_stack ==> bind->0 is V6 && v4_octets(
                trimmed(server.bind_address_v4@),
            ) is Some
        },
{
}

/// The limits of the settings are accepted exactly if there is a secret, the skew
/// is of 1 to 60 seconds, the rate of 1 to 600 a minute, and the headers can be
/// sent.
pub proof fn limits_are_valid_exactly_if_each_is(security: SecurityConfig)
    ensures
        security.limits_fault() is None <==> {
            &&& trimmed(security.shared_secret@).len() > 0
            &&& secret_read(security.shared_secret@) is Ok
            &&& 1 <= security.clock_skew_seconds <= 60
            &&& 1 <= security.max_requests_per_minute <= 600
            &&& headers_fault(header_models(security.custom_headers@)) is None
        },
{
}

/// The settings of a client are accepted exactly if what is set of them is.
pub proof fn a_client_side_is_valid_exactly_if_its_parts_are(client: ClientConfig)
    ensures
        client.fault() is None <==> {
            &&& client.client_id@.len() > 0 ==> trimmed(client.client_id@) == client.client_id@
                && is_id(lowered(client.client_id@))
            &&& client.port >= 1024
            &&& client.address@.len() > 0 ==> byte_count(client.address@) <= 255 && forall|i: int|
                0 <= i < client.address@.len() ==> {
                    let c = #[trigger] client.address@[i];
                    c > '\u{1f}' && c != '\u{7f}' && c != ' '
                }
        },
{
    if client.address@.len() > 0 {
        let address = client.address@;
        if forall|i: int|
            0 <= i < address.len() ==> {
                let c = #[trigger] address[i];
                c > '\u{1f}' && c != '\u{7f}' && c != ' '
            } {
            assert forall|i: int| 0 <= i < address.len() implies !(
            #[trigger] crate::config::is_address_stop(address[i])) by {
                let c = address[i];
            }
        } else {
            let i = choose|i: int|
                0 <= i < address.len() && {
                    let c = #[trigger] address[i];
                    !(c > '\u{1f}' && c != '\u{7f}' && c != ' ')
                };
            assert(crate::config::is_address_stop(address[i]));
        }
    }
}

/// A key pair is accepted exactly if there is none, or both keys are there, can be
/// read, belong together, and the public one is not of low order.
pub proof fn a_pair_is_valid_exactly_if_it_belongs_together(
    private: Seq<char>,
    public: Seq<char>,
    name: Seq<char>,
)
    ensures
        pair_fault(private, public, name) is None <==> {
            ||| private.len() == 0 && public.len() == 0
            ||| private.len() > 0 && public.len() > 0 && key_read(private) is Ok && public
                == crate::config::key_text(x25519_public(key_read(private)->Ok_0)) && key_read(
                public,
            ) is Ok && !low_order(key_read(public)->Ok_0)
        },
{
}

/// Settings are accepted exactly if their version is the current one, each part of
/// them is, there are at most 64 hosts and 128 clients, every key that is set can be
/// read, the key pairs belong together, and a pin is the server's own key where
/// both are set.
pub proof fn settings_are_valid_exactly_if_each_part_is(config: AppConfig)
    ensures
        config.fault() is None <==> {
            let security = config.security;
            let client = config.client;
            let set = |text: Seq<char>| text.len() > 0 ==> key_read(text) is Ok;
            &&& config.config_version == 1
            &&& config.server.fault() is None
            &&& security.limits_fault() is None
            &&& config.hosts@.len() <= 64
            &&& security.allowed_clients@.len() <= 128
            &&& hosts_fault(config.hosts@, security.allow_public_targets, 0) is None
            &&& clients_fault(security.allowed_clients@, host_ids_of(config.hosts@), 0) is None
            &&& client.fault() is None
            &&& set(security.server_static_private_key@)
            &&& set(security.server_static_public_key@)
            &&& set(client.static_private_key@)
            &&& set(client.static_public_key@)
            &&& set(client.pinned_server_static_key@)
            &&& pair_fault(
                security.server_static_private_key@,
                security.server_static_public_key@,
                "server"@,
            ) is None
            &&& pair_fault(client.static_private_key@, client.static_public_key@, "client"@) is None
            &&& client.pinned_server_static_key@.len() > 0
                && security.server_static_public_key@.len() > 0
                ==> client.pinned_server_static_key@ == security.server_static_public_key@
        },
{
}

} // verus!
