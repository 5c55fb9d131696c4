//! Settings that are shown and saved again.

use crate::config::{
    allowed_hosts_accepted, clients_accepted, host_id_of, host_ids_of, normal_ids,
    valid_hosts_are_valid_on_the_wire, AllowedModel, AppConfig, EndpointModel, HostModel,
    ListenerModel, SecurityModel, SettingsModel,
};
use crate::forms::{kept_hosts, unsigned, unsigned_part};
use crate::header_map::an_ascending_list_is_its_own_map;
use crate::literals::{
    a_literal_is_an_address, a_number_has_no_white_space, an_address_has_no_white_space,
    an_address_reads_back, decimal_reads_back, ends_stay,
};
use crate::net::{ip_literal, v4_octets};
use crate::protocol::{ascending, is_id};
use crate::server_view::{host_named, host_of, row_ids, row_of, ListenModel, ShownModel};
use crate::text::{decimal, is_alnum, lowered, lowered_is_stable, texts, trimmed, trimmed_is_stable};
use vstd::prelude::*;

verus! {

/// A host in its plainest form: its identifier, and a label only where it says
/// something else.
pub open spec fn tidy_host(host: HostModel) -> HostModel {
    let label = trimmed(host.display_name);
    HostModel {
        hostname: host_id_of(host.hostname),
        display_name: if label.len() == 0 || lowered(label) == host_id_of(host.hostname) {
            Seq::empty()
        } else {
            label
        },
        mac: trimmed(host.mac),
        ip: trimmed(host.ip),
        ..host
    }
}

/// The listeners with their addresses in their usual form.
pub open spec fn tidy_listener(server: ListenerModel) -> ListenerModel {
    ListenerModel {
        bind_address: ip_literal(trimmed(server.bind_address))->0.text(),
        bind_address_v4: if server.dual_stack {
            trimmed(server.bind_address_v4)
        } else {
            server.bind_address_v4
        },
        ..server
    }
}

pub open spec fn tidy_client(client: AllowedModel) -> AllowedModel {
    AllowedModel { allowed_hosts: normal_ids(client.allowed_hosts), ..client }
}

/// The settings in their plainest form. They mean the same.
pub open spec fn tidy(config: SettingsModel) -> SettingsModel {
    SettingsModel {
        server: tidy_listener(config.server),
        security: SecurityModel {
            allowed_clients: config.security.allowed_clients.map_values(
                |client: AllowedModel| tidy_client(client),
            ),
            ..config.security
        },
        hosts: config.hosts.map_values(|host: HostModel| tidy_host(host)),
        client: EndpointModel::none(),
        ..config
    }
}

proof fn an_id_is_its_own(name: Seq<char>)
    requires
        is_id(host_id_of(name)),
    ensures
        trimmed(host_id_of(name)) == host_id_of(name),
        lowered(host_id_of(name)) == host_id_of(name),
        host_id_of(host_id_of(name)) == host_id_of(name),
{
    let id = host_id_of(name);
    assert(is_alnum(id[0]) && is_alnum(id.last()));
    ends_stay(id);
    lowered_is_stable(trimmed(name));
}

/// The first host with the identifier of a host is that host, where no two share
/// one.
proof fn host_is_found(hosts: Seq<HostModel>, i: int)
    requires
        0 <= i < hosts.len(),
        forall|a: int, b: int|
            0 <= a < b < hosts.len() ==> host_id_of(#[trigger] hosts[a].hostname) != host_id_of(
                #[trigger] hosts[b].hostname,
            ),
    ensures
        host_named(hosts, host_id_of(hosts[i].hostname)) == Some(hosts[i]),
    decreases i,
{
    if i > 0 {
        let rest = hosts.drop_first();
        assert(host_id_of(hosts[0].hostname) != host_id_of(hosts[i].hostname));
        assert forall|a: int, b: int| 0 <= a < b < rest.len() implies host_id_of(
            #[trigger] rest[a].hostname,
        ) != host_id_of(#[trigger] rest[b].hostname) by {
            assert(host_id_of(hosts[a + 1].hostname) != host_id_of(hosts[b + 1].hostname));
        }
        assert(rest[i - 1] == hosts[i]);
        host_is_found(rest, i - 1);
    }
}

proof fn a_host_is_saved_as_shown(hosts: Seq<HostModel>, i: int)
    requires
        0 <= i < hosts.len(),
        is_id(host_id_of(hosts[i].hostname)),
        forall|a: int, b: int|
            0 <= a < b < hosts.len() ==> host_id_of(#[trigger] hosts[a].hostname) != host_id_of(
                #[trigger] hosts[b].hostname,
            ),
    ensures
        host_of(row_of(hosts[i]), hosts) == tidy_host(hosts[i]),
        host_id_of(row_of(hosts[i]).id) == host_id_of(hosts[i].hostname),
{
    let host = hosts[i];
    an_id_is_its_own(host.hostname);
    host_is_found(hosts, i);
    trimmed_is_stable(host.display_name);
    trimmed_is_stable(host.hostname);
    trimmed_is_stable(host.mac);
    trimmed_is_stable(host.ip);
    assert(lowered(trimmed(host.hostname)) == host_id_of(host.hostname));
    assert(lowered(trimmed(host.hostname)).len() == trimmed(host.hostname).len());
}

/// Permissions for known hosts, none of them twice, all stay.
proof fn sound_permissions_stay(names: Seq<Seq<char>>, ids: Seq<Seq<char>>)
    requires
        forall|i: int| 0 <= i < names.len() ==> ids.contains(host_id_of(#[trigger] names[i])),
        forall|i: int|
            0 <= i < names.len() ==> !normal_ids(names.take(i)).contains(
                host_id_of(#[trigger] names[i]),
            ),
    ensures
        kept_hosts(names, ids) == normal_ids(names),
    decreases names.len(),
{
    if names.len() > 0 {
        let front = names.drop_last();
        let n = names.len() - 1;
        assert forall|i: int| 0 <= i < front.len() implies ids.contains(
            host_id_of(#[trigger] front[i]),
        ) by {
            assert(ids.contains(host_id_of(names[i])));
        }
        assert forall|i: int| 0 <= i < front.len() implies !normal_ids(front.take(i)).contains(
            host_id_of(#[trigger] front[i]),
        ) by {
            assert(front.take(i) =~= names.take(i));
            assert(!normal_ids(names.take(i)).contains(host_id_of(names[i])));
        }
        sound_permissions_stay(front, ids);
        assert(front =~= names.take(n));
        assert(ids.contains(host_id_of(names[n])));
        assert(!normal_ids(names.take(n)).contains(host_id_of(names[n])));
        assert(normal_ids(front).push(host_id_of(names.last())) =~= normal_ids(names));
    }
}

proof fn a_client_is_saved_as_shown(config: AppConfig, i: int)
    requires
        config.fault() is None,
        0 <= i < config.security.allowed_clients@.len(),
    ensures
        kept_hosts(
            config.security.allowed_clients@[i]@.allowed_hosts,
            host_ids_of(config.hosts@),
        ) == normal_ids(config.security.allowed_clients@[i]@.allowed_hosts),
{
    let clients = config.security.allowed_clients@;
    let ids = host_ids_of(config.hosts@);
    let names = texts(clients[i].allowed_hosts@);
    clients_accepted(clients, ids, 0, i);
    assert forall|k: int| 0 <= k < names.len() implies ids.contains(
        host_id_of(#[trigger] names[k]),
    ) by {
        allowed_hosts_accepted(clients[i].client_id@, names, ids, 0, k);
    }
    assert forall|k: int| 0 <= k < names.len() implies !normal_ids(names.take(k)).contains(
        host_id_of(#[trigger] names[k]),
    ) by {
        allowed_hosts_accepted(clients[i].client_id@, names, ids, 0, k);
    }
    sound_permissions_stay(names, ids);
}

proof fn a_number_is_saved_as_shown(n: nat, max: nat)
    requires
        n <= max,
    ensures
        unsigned(trimmed(decimal(n)), max) == Some(n),
{
    a_number_has_no_white_space(n);
    decimal_reads_back(n);
    assert(unsigned_part(decimal(n)) == decimal(n));
}

proof fn a_listener_is_saved_as_shown(form: ListenModel, config: AppConfig)
    requires
        config.server.fault() is None,
    ensures
        form.loaded(config.server@).fault() is None,
        form.loaded(config.server@).saved(config.server@, config.server.port) == tidy_listener(
            config.server@,
        ),
{
    let server = config.server@;
    let ip = ip_literal(trimmed(server.bind_address))->0;
    a_literal_is_an_address(trimmed(server.bind_address));
    an_address_reads_back(ip);
    an_address_has_no_white_space(ip);
    trimmed_is_stable(server.bind_address_v4);
    let v4 = trimmed(server.bind_address_v4);
    if server.dual_stack {
        assert(v4_octets(v4) is Some);
        assert(v4.len() > 0) by {
            if v4.len() == 0 {
                assert(crate::net::split(v4, '.').len() == 1);
            }
        }
    }
}

/// A server that is shown and saved again without a change keeps its settings;
/// only the way in which names and addresses are written may change.
pub proof fn saving_what_is_shown_changes_nothing(
    config: AppConfig,
    view: ShownModel,
    path: Seq<char>,
    secret: Seq<u8>,
    private: Seq<u8>,
)
    requires
        config.fault() is None,
        !config@.has_client_settings(),
        config.security.server_static_private_key@.len() > 0,
        ascending(config@.security.custom_headers),
    ensures
        ({
            let clients = config@.security.allowed_clients;
            let shown = view.loaded(config@, clients, path);
            &&& shown.fault(config@) is None
            &&& shown.saved(config@, clients, secret, private) == tidy(config@)
        }),
{
    let model = config@;
    let clients = model.security.allowed_clients;
    let shown = view.loaded(model, clients, path);
    let saved = shown.saved(model, clients, secret, private);
    let hosts = model.hosts;
    assert(hosts.len() == config.hosts@.len());
    assert(clients.len() == config.security.allowed_clients@.len());
    let ids = host_ids_of(config.hosts@);
    assert forall|i: int| 0 <= i < hosts.len() implies #[trigger] ids[i] == host_id_of(
        hosts[i].hostname,
    ) && is_id(ids[i]) by {
        valid_hosts_are_valid_on_the_wire(config, i, i);
    }
    assert forall|a: int, b: int| 0 <= a < b < hosts.len() implies host_id_of(
        #[trigger] hosts[a].hostname,
    ) != host_id_of(#[trigger] hosts[b].hostname) by {
        valid_hosts_are_valid_on_the_wire(config, a, b);
        assert(ids[a] != ids[b]);
    }
    assert forall|i: int| 0 <= i < hosts.len() implies #[trigger] saved.hosts[i] == tidy_host(
        hosts[i],
    ) && row_ids(shown.hosts)[i] == ids[i] by {
        assert(ids[i] == host_id_of(hosts[i].hostname));
        a_host_is_saved_as_shown(hosts, i);
    }
    assert(saved.hosts =~= tidy(model).hosts);
    assert(row_ids(shown.hosts) =~= ids) by {
        assert forall|i: int| 0 <= i < ids.len() implies row_ids(shown.hosts)[i] == ids[i] by {
            assert(saved.hosts[i] == tidy_host(hosts[i]));
        }
    }
    assert forall|i: int| 0 <= i < clients.len() implies #[trigger] saved.security.allowed_clients[i]
        == tidy_client(clients[i]) by {
        a_client_is_saved_as_shown(config, i);
        assert(clients[i] == config.security.allowed_clients@[i]@);
    }
    assert(saved.security.allowed_clients =~= tidy(model).security.allowed_clients);
    a_number_is_saved_as_shown(config.server.port as nat, 65535);
    a_number_is_saved_as_shown(config.security.clock_skew_seconds as nat, u64::MAX as nat);
    an_ascending_list_is_its_own_map(model.security.custom_headers);
    a_listener_is_saved_as_shown(view.listen, config);
}

/// The headers of saved settings stand in the order of their names, each once.
pub proof fn saved_headers_stand_in_order(
    view: ShownModel,
    config: SettingsModel,
    clients: Seq<AllowedModel>,
    secret: Seq<u8>,
    private: Seq<u8>,
)
    ensures
        ascending(view.saved(config, clients, secret, private).security.custom_headers),
{
    crate::header_map::collected_headers_are_a_map(view.headers, Seq::empty());
}

} // verus!
