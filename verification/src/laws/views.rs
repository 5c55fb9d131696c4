//! What the pages hold between two events, and what is saved of them.

use crate::client::NewsModel;
use crate::client_view::{
    connect_fault, defaulted, gauge_of, ClientConnectionPhase, GaugeColor, Screen, ViewModel,
    WakePhase,
};
use crate::clock::{elapsed, CLOCK_END};
use crate::config::{host_id_of, key_read, key_text, AllowedModel, ListenerModel, SettingsModel};
use crate::crypto::{hex_text, x25519_public};
use crate::desk::{change_of, entry_of, DeskModel, LogModel, Modal, ServerPhase};
use crate::forms::{client_endpoint_fault, listen_fault, port_read, skew_read};
use crate::header_map::last_value;
use crate::issue::OutputPlace;
use crate::logging::Level;
use crate::net::ip_literal;
use crate::protocol::HeaderModel;
use crate::server_view::{
    bare_key, client_named, host_of, row_of, ListenMode, ListenModel, ShownModel,
};
use crate::text::{decimal, lowered, trimmed};
use vstd::prelude::*;

verus! {

/// The word in front of a line of the log is its level, and the rest its message; a
/// line without one only informs.
pub proof fn a_line_shows_its_level(word: Seq<char>, message: Seq<char>)
    requires
        !word.contains(' '),
    ensures
        entry_of(word) == (Level::Info, word),
        entry_of(word.push(' ') + message).1 == message,
        entry_of(word.push(' ') + message).0 == Level::Warn <==> word == "WARN"@,
        entry_of(word.push(' ') + message).0 == Level::Error <==> word == "ERROR"@,
        entry_of(word.push(' ') + message).0 == Level::Fatal <==> word == "FATAL"@,
{
    let line = word.push(' ') + message;
    let n: int = word.len() as int;
    reveal_strlit("WARN");
    reveal_strlit("ERROR");
    reveal_strlit("FATAL");
    assert("WARN"@.len() == 4 && "ERROR"@.len() == 5 && "FATAL"@.len() == 5);
    assert("ERROR"@[0] == 'E' && "FATAL"@[0] == 'F');
    word.index_of_first_ensures(' ');
    line.index_of_first_ensures(' ');
    assert(line[n] == ' ');
    assert(line.contains(' '));
    assert(line.index_of_first(' ') == Some(n)) by {
        let at = line.index_of_first(' ')->0;
        if at < n {
            assert(line[at] == word[at]);
            assert(word.contains(word[at]));
        } else if at > n {
            assert(line[n] != ' ');
        }
    }
    assert(line.take(n) =~= word);
    assert(line.skip(n + 1) =~= message);
}

/// A line is logged last; the server has failed exactly if the line says so.
pub proof fn a_logged_line_is_shown_last(desk: DeskModel, line: Seq<char>, clock: Seq<char>)
    ensures
        ({
            let after = desk.logged(line, clock);
            let fails = entry_of(line).0 == Level::Fatal || "listener bind failed"@.is_prefix_of(
                entry_of(line).1,
            );
            &&& after.logs.last() == (LogModel {
                clock,
                level: entry_of(line).0,
                message: entry_of(line).1,
            })
            &&& after.logs.len() <= 200
            &&& desk.logs.len() < 200 ==> after.logs.drop_last() == desk.logs
            &&& fails ==> after.phase == ServerPhase::Failed
            &&& !fails ==> after.phase == desk.phase
            &&& after.config == desk.config && after.started == desk.started && after.screen
                == desk.screen
        }),
{
    let after = desk.logged(line, clock);
    if desk.logs.len() < 200 {
        assert(after.logs.drop_last() =~= desk.logs);
    }
}

/// A server that is started has an empty log and is not running yet; one that is
/// stopped has no connections.
pub proof fn a_server_is_started_and_stopped(desk: DeskModel)
    ensures
        desk.starting().started && desk.starting().phase == ServerPhase::Starting
            && desk.starting().logs.len() == 0 && desk.starting().screen == Screen::ServerRunning
            && desk.starting().config == desk.config,
        !desk.stopped().started && desk.stopped().phase == ServerPhase::Stopped
            && desk.stopped().active_connections == 0 && desk.stopped().screen == Screen::ServerHome
            && desk.stopped().config == desk.config && desk.stopped().logs == desk.logs,
{
}

/// The settings are saved exactly on the way out of a page where they were changed, when
/// a host was deleted or a client revoked, and on the way to the last page or out of it.
pub proof fn changes_are_saved_on_the_way_out(
    before_screen: Screen,
    before_modal: Option<Modal>,
    screen: Screen,
    modal: Option<Modal>,
    quit: bool,
)
    ensures
        ({
            let change = change_of(before_screen, before_modal, screen, modal, quit);
            &&& change.revoked <==> before_modal == Some(Modal::RevokeCredential) && modal is None
                && screen == Screen::Credentials
            &&& change.saves <==> change.revoked || (before_screen == Screen::HostEditor && screen
                == Screen::ServerHome) || (before_screen == Screen::HeaderEditor && screen
                == Screen::ServerSettings) || (before_screen == Screen::ServerSettings && screen
                == Screen::ServerHome) || (before_modal == Some(Modal::DeleteHost) && modal is None
                && screen == Screen::ServerHome) || (screen == Screen::SaveExit && before_screen
                != Screen::SaveExit) || (screen == Screen::SaveExit && quit)
        }),
{
}

/// A page shows the settings: a row for every host and every client, the port, the
/// tolerance within its bounds, and the headers.
pub proof fn a_page_shows_the_settings(
    view: ShownModel,
    config: SettingsModel,
    clients: Seq<AllowedModel>,
    path: Seq<char>,
    i: int,
)
    ensures
        ({
            let shown = view.loaded(config, clients, path);
            let skew = config.security.clock_skew_seconds;
            &&& shown.hosts.len() == config.hosts.len()
            &&& 0 <= i < config.hosts.len() ==> shown.hosts[i] == row_of(config.hosts[i])
            &&& shown.clients.len() == clients.len()
            &&& 0 <= i < clients.len() ==> shown.clients[i].label == clients[i].client_id
                && shown.clients[i].access == crate::server_view::access_of(
                clients[i].allowed_hosts.len(),
                config.hosts.len(),
            )
            &&& shown.headers == config.security.custom_headers
            &&& shown.server_port == decimal(config.server.port as nat)
            &&& 1 <= skew <= 60 ==> shown.clock_skew == decimal(skew as nat)
            &&& skew > 60 ==> shown.clock_skew == decimal(60)
            &&& skew == 0 ==> shown.clock_skew == decimal(1)
            &&& trimmed(config.client.address).len() > 0 ==> shown.address == trimmed(
                config.client.address,
            )
            &&& config.client.port != 0 ==> shown.port == decimal(config.client.port as nat)
            &&& config.client.port == 0 ==> shown.port == "45890"@
        }),
{
}

/// A client may wake so many hosts, which are all of them or not.
pub proof fn access_is_shown_by_number(allowed: nat, hosts: nat)
    ensures
        allowed == hosts && hosts > 0 ==> crate::server_view::access_of(allowed, hosts) == "全部 "@
            + decimal(allowed) + " 台主机"@,
        allowed != hosts || hosts == 0 ==> crate::server_view::access_of(allowed, hosts) == decimal(
            allowed,
        ) + " 台主机"@,
{
}

proof fn the_first_client_with_a_name(clients: Seq<AllowedModel>, label: Seq<char>, i: int)
    ensures
        0 <= i < clients.len() && lowered(clients[i].client_id) == lowered(label) && (forall|j: int|
            0 <= j < i ==> lowered((#[trigger] clients[j]).client_id) != lowered(label))
            ==> client_named(clients, label) == Some(clients[i]),
        (forall|j: int|
            0 <= j < clients.len() ==> lowered((#[trigger] clients[j]).client_id) != lowered(label))
            ==> client_named(clients, label) is None,
    decreases clients.len(),
{
    if clients.len() > 0 {
        let rest = clients.drop_first();
        the_first_client_with_a_name(rest, label, i - 1);
        if 0 <= i < clients.len() && lowered(clients[i].client_id) == lowered(label) && (forall|
            j: int,
        |
            0 <= j < i ==> lowered((#[trigger] clients[j]).client_id) != lowered(label)) {
            if i > 0 {
                assert(lowered(clients[0].client_id) != lowered(label));
                assert(rest[i - 1] == clients[i]);
                assert forall|j: int| 0 <= j < i - 1 implies lowered(
                    (#[trigger] rest[j]).client_id,
                ) != lowered(label) by {
                    assert(rest[j] == clients[j + 1]);
                }
            }
        }
        if forall|j: int|
            0 <= j < clients.len() ==> lowered((#[trigger] clients[j]).client_id) != lowered(
                label,
            ) {
            assert(lowered(clients[0].client_id) != lowered(label));
            assert forall|j: int| 0 <= j < rest.len() implies lowered(
                (#[trigger] rest[j]).client_id,
            ) != lowered(label) by {
                assert(rest[j] == clients[j + 1]);
            }
        }
    }
}

/// The row of a client shows what the first client of its name may wake, whatever the
/// case of its letters; a row without a client stays as it was.
pub proof fn a_row_shows_the_access_of_its_client(
    view: ShownModel,
    clients: Seq<AllowedModel>,
    r: int,
    i: int,
)
    requires
        0 <= r < view.clients.len(),
    ensures
        ({
            let row = view.clients[r];
            let after = view.with_access(clients).clients;
            &&& after.len() == view.clients.len()
            &&& after[r].label == row.label
            &&& 0 <= i < clients.len() && lowered(clients[i].client_id) == lowered(row.label) && (
            forall|j: int|
                0 <= j < i ==> lowered((#[trigger] clients[j]).client_id) != lowered(row.label))
                ==> after[r].access == crate::server_view::access_of(
                clients[i].allowed_hosts.len(),
                view.hosts.len(),
            )
            &&& (forall|j: int|
                0 <= j < clients.len() ==> lowered((#[trigger] clients[j]).client_id) != lowered(
                    row.label,
                )) ==> after[r] == row
            &&& view.with_access(clients).hosts == view.hosts && view.with_access(clients).headers
                == view.headers
        }),
{
    the_first_client_with_a_name(clients, view.clients[r].label, i);
}

/// A page is saved exactly if the settings are of no client, the server's keys can go
/// together, and the port, the tolerance and the addresses of the page are in order.
pub proof fn a_page_can_be_saved_exactly_if_its_fields_are_sound(
    view: ShownModel,
    config: SettingsModel,
)
    ensures
        view.fault(config) is None <==> {
            &&& !config.has_client_settings()
            &&& config.identity_fault() is None
            &&& port_read(trimmed(view.server_port)) is Ok
            &&& skew_read(trimmed(view.clock_skew)) is Ok
            &&& view.listen.fault() is None
        },
        config.has_client_settings() <==> trimmed(config.client.address).len() + trimmed(
            config.client.client_id,
        ).len() + trimmed(config.client.static_private_key).len() + trimmed(
            config.client.static_public_key,
        ).len() + trimmed(config.client.pinned_server_static_key).len() > 0,
        config.has_server_settings() <==> trimmed(config.security.server_static_private_key).len()
            + trimmed(config.security.server_static_public_key).len() + config.hosts.len()
            + config.security.allowed_clients.len() > 0,
{
}

/// The server's keys can go together unless there is a public one alone, or a private
/// one alone that is none; what is there stays, and what is missing is made.
pub proof fn missing_keys_are_made(config: SettingsModel, fresh: Seq<u8>)
    ensures
        ({
            let private = config.security.server_static_private_key;
            let public = config.security.server_static_public_key;
            let keys = config.identity(fresh);
            &&& config.identity_fault() is None <==> (private.len() == 0 ==> public.len() == 0) && (
            private.len() > 0 && public.len() == 0 ==> key_read(private) is Ok)
            &&& private.len() == 0 ==> keys.0 == key_text(fresh) && keys.1 == key_text(
                x25519_public(fresh),
            )
            &&& private.len() > 0 ==> keys.0 == private
            &&& private.len() > 0 && public.len() > 0 ==> keys.1 == public
            &&& private.len() > 0 && public.len() == 0 && key_read(private) is Ok ==> keys.1
                == key_text(x25519_public(key_read(private)->Ok_0))
            &&& trimmed(config.security.shared_secret).len() > 0 ==> config.secret(fresh)
                == config.security.shared_secret
            &&& trimmed(config.security.shared_secret).len() == 0 ==> config.secret(fresh)
                == key_text(fresh)
        }),
{
}

/// What is saved is what the page shows: its hosts, port, tolerance, headers and
/// addresses, and the clients without the hosts that are gone; everything else stays.
pub proof fn what_is_shown_is_saved(
    view: ShownModel,
    config: SettingsModel,
    clients: Seq<AllowedModel>,
    secret: Seq<u8>,
    private: Seq<u8>,
    i: int,
)
    requires
        view.fault(config) is None,
    ensures
        ({
            let saved = view.saved(config, clients, secret, private);
            &&& saved.hosts.len() == view.hosts.len()
            &&& 0 <= i < view.hosts.len() ==> saved.hosts[i] == host_of(view.hosts[i], config.hosts)
            &&& saved.server.port == port_read(trimmed(view.server_port))->Ok_0
            &&& saved.security.clock_skew_seconds == skew_read(trimmed(view.clock_skew))->Ok_0
            &&& saved.security.allowed_clients.len() == clients.len()
            &&& 0 <= i < clients.len() ==> saved.security.allowed_clients[i].client_id
                == clients[i].client_id && saved.security.allowed_clients[i].static_public_key
                == clients[i].static_public_key
            &&& saved.security.max_requests_per_minute == config.security.max_requests_per_minute
            &&& saved.security.allow_public_targets == config.security.allow_public_targets
            &&& saved.config_version == config.config_version
            &&& saved.client.address.len() == 0 && saved.client.client_id.len() == 0
            &&& forall|name: Seq<char>|
                #![trigger last_value(saved.security.custom_headers, name)]
                last_value(saved.security.custom_headers, name) == last_value(view.headers, name)
        }),
{
    let saved = view.saved(config, clients, secret, private);
    assert forall|name: Seq<char>|
        #![trigger last_value(saved.security.custom_headers, name)]
        last_value(saved.security.custom_headers, name) == last_value(view.headers, name) by {
        crate::header_map::collected_headers_are_a_map(view.headers, name);
    }
}

/// The value of a header is the last one that was given to it.
pub proof fn the_last_value_of_a_header_counts(
    headers: Seq<HeaderModel>,
    name: Seq<char>,
    k: int,
)
    ensures
        last_value(headers, name) is None <==> forall|j: int|
            0 <= j < headers.len() ==> (#[trigger] headers[j]).name != name,
        0 <= k < headers.len() && headers[k].name == name && (forall|j: int|
            k < j < headers.len() ==> (#[trigger] headers[j]).name != name) ==> last_value(
            headers,
            name,
        ) == Some(headers[k].value),
    decreases headers.len(),
{
    if headers.len() > 0 {
        let front = headers.drop_last();
        let n = headers.len() - 1;
        the_last_value_of_a_header_counts(front, name, k);
        assert(headers[n] == headers.last());
        if headers.last().name != name {
            if last_value(front, name) is Some {
                let j = choose|j: int| 0 <= j < front.len() && (#[trigger] front[j]).name == name;
                assert(headers[j].name == name);
            } else {
                assert forall|j: int| 0 <= j < headers.len() implies (#[trigger] headers[j]).name
                    != name by {
                    if j < n {
                        assert(front[j].name != name);
                    }
                }
            }
            if 0 <= k < n && headers[k].name == name && (forall|j: int|
                k < j < headers.len() ==> (#[trigger] headers[j]).name != name) {
                assert(front[k] == headers[k]);
                assert forall|j: int| k < j < front.len() implies (#[trigger] front[j]).name
                    != name by {
                    assert(front[j] == headers[j]);
                }
            }
        }
    }
}

/// The page shows how the server listens: at one address, of either kind, or at both;
/// and what it shows is what it saves.
pub proof fn a_page_listens_as_it_shows(
    form: ListenModel,
    before: ListenerModel,
    server: ListenerModel,
    port: u16,
)
    ensures
        ({
            let ip = ip_literal(trimmed(server.bind_address));
            let shown = form.loaded(server);
            let saved = form.saved(before, port);
            &&& shown.mode == ListenMode::Custom <==> ip is None
            &&& shown.mode == ListenMode::V4Only <==> ip is Some && ip->0 is V4
            &&& shown.mode == ListenMode::DualStack <==> ip is Some && ip->0 is V6
                && server.dual_stack
            &&& shown.mode == ListenMode::V6Only <==> ip is Some && ip->0 is V6
                && !server.dual_stack
            &&& saved.dual_stack <==> form.mode == ListenMode::DualStack
            &&& saved.port == port
            &&& form.mode == ListenMode::Custom ==> saved.bind_address == trimmed(form.custom)
            &&& form.mode == ListenMode::V4Only ==> saved.bind_address == trimmed(form.v4)
            &&& form.mode == ListenMode::V6Only ==> saved.bind_address == trimmed(form.v6)
            &&& form.mode == ListenMode::DualStack ==> saved.bind_address == trimmed(form.v6)
                && saved.bind_address_v4 == trimmed(form.v4)
            &&& form.mode != ListenMode::DualStack ==> saved.bind_address_v4
                == before.bind_address_v4
            &&& form.fault() is None <==> match form.mode {
                ListenMode::Custom => listen_fault(trimmed(form.custom), None) is None,
                ListenMode::V4Only => listen_fault(trimmed(form.v4), Some(false)) is None,
                ListenMode::V6Only => listen_fault(trimmed(form.v6), Some(true)) is None,
                ListenMode::DualStack => listen_fault(trimmed(form.v6), Some(true)) is None
                    && listen_fault(trimmed(form.v4), Some(false)) is None,
            }
        }),
{
}

/// What is issued by the form of a client that is edited changes the hosts of that
/// client alone, to those that were chosen.
pub proof fn an_edited_client_gets_the_chosen_hosts(
    desk: DeskModel,
    place: OutputPlace,
    secret: Seq<u8>,
    private: Seq<u8>,
    client: Seq<u8>,
    i: int,
)
    requires
        desk.issue.edit is Some,
        desk.config.security.allowed_clients == desk.client_acl,
    ensures
        ({
            let issued = desk.issued(place, secret, private, client).1;
            let index = desk.issue.edit->0;
            let kept = desk.reconciled().config;
            &&& !(issued is New)
            &&& issued is Update <==> index < desk.client_acl.len()
                && desk.reconciled().issue_form_fault() is None
            &&& issued is Update ==> {
                let config = issued->Update_config;
                let after = config.security.allowed_clients;
                &&& issued->index == index
                &&& after.len() == desk.client_acl.len()
                &&& after[index as int].client_id == desk.client_acl[index as int].client_id
                &&& after[index as int].static_public_key
                    == desk.client_acl[index as int].static_public_key
                &&& after[index as int].allowed_hosts == desk.reconciled().chosen()
                &&& 0 <= i < after.len() && i != index ==> after[i]
                    == kept.security.allowed_clients[i]
                &&& config.hosts == desk.config.hosts && config.server == desk.config.server
                    && config.security.shared_secret == desk.config.security.shared_secret
            }
        }),
{
}

/// The form of a new credential begins with every host chosen, that of a client with
/// the hosts that it may wake.
pub proof fn a_credential_form_begins_with_its_hosts(desk: DeskModel, i: int)
    requires
        0 <= i < desk.view.hosts.len(),
    ensures
        desk.issuing().issue.selected.len() == desk.view.hosts.len(),
        desk.issuing().issue.selected[i],
        desk.issuing().issue.edit is None,
        ".credential.toml"@.is_suffix_of(desk.issuing().issue.output),
        ({
            let index = desk.view.credential_index;
            let after = desk.editing();
            index < desk.client_acl.len() ==> {
                &&& after.issue.edit == Some(index)
                &&& after.issue.selected.len() == desk.view.hosts.len()
                &&& after.issue.selected[i] <==> exists|k: int|
                    0 <= k < desk.client_acl[index as int].allowed_hosts.len() && host_id_of(
                        #[trigger] desk.client_acl[index as int].allowed_hosts[k],
                    ) == desk.view.hosts[i].id
            }
        }),
        desk.view.credential_index >= desk.client_acl.len() ==> desk.editing().issue == desk.issue
            && desk.editing().screen == desk.screen,
{
    let label = desk.issuing().issue.label;
    let output = label + ".credential.toml"@;
    assert(output.skip(label.len() as int) =~= ".credential.toml"@);
    let index = desk.view.credential_index;
    if index < desk.client_acl.len() {
        let hosts = desk.client_acl[index as int].allowed_hosts;
        let allowed = hosts.map_values(|name: Seq<char>| host_id_of(name));
        let id = desk.view.hosts[i].id;
        if allowed.contains(id) {
            let k = choose|k: int| 0 <= k < allowed.len() && allowed[k] == id;
            assert(host_id_of(hosts[k]) == id);
        }
        if exists|k: int| 0 <= k < hosts.len() && host_id_of(#[trigger] hosts[k]) == id {
            let k = choose|k: int| 0 <= k < hosts.len() && host_id_of(#[trigger] hosts[k]) == id;
            assert(allowed[k] == id);
        }
    }
}

/// What was saved is shown; what could not be saved is not, and the clients are those
/// of the settings again.
pub proof fn a_page_shows_what_was_saved(
    desk: DeskModel,
    config: SettingsModel,
    removed: nat,
    path: Seq<char>,
    complaint: Seq<char>,
)
    ensures
        desk.saved(config, removed, path).config == config,
        desk.saved(config, removed, path).client_acl == config.security.allowed_clients,
        desk.saved(config, removed, path).view.clients == desk.view.with_access(
            config.security.allowed_clients,
        ).clients,
        desk.saved(config, removed, path).view.server_public_key == bare_key(
            config.security.server_static_public_key,
        ),
        desk.unsaved(complaint).config == desk.config,
        desk.unsaved(complaint).client_acl == desk.config.security.allowed_clients,
        desk.unsaved(complaint).view.hosts == desk.view.hosts,
        desk.unsaved(complaint).view.clients.len() == desk.config.security.allowed_clients.len(),
        desk.save_failed(config, complaint, path).config == config,
        desk.save_failed(config, complaint, path).client_acl == config.security.allowed_clients,
        desk.save_failed(config, complaint, path).view == desk.view.loaded(
            config,
            config.security.allowed_clients,
            path,
        ),
{
}

/// The key of the server is shown without the name of its encoding.
pub proof fn a_key_is_shown_without_its_encoding(text: Seq<char>)
    ensures
        bare_key("hex:"@ + text) == text,
        !"hex:"@.is_prefix_of(text) ==> bare_key(text) == text,
{
    reveal_strlit("hex:");
    assert(("hex:"@ + text).skip(4) =~= text);
    assert(("hex:"@ + text).subrange(0, 4) =~= "hex:"@);
}

/// Bytes are written with two small digits each, the high one first.
pub proof fn a_byte_is_two_digits(bytes: Seq<u8>, i: int)
    ensures
        hex_text(bytes).len() == 2 * bytes.len(),
        0 <= i < bytes.len() ==> {
            let digit = |n: int|
                if n < 10 {
                    (48 + n) as u8
                } else {
                    (87 + n) as u8
                };
            &&& hex_text(bytes)[2 * i] as u32 == digit(bytes[i] as int / 16)
            &&& hex_text(bytes)[2 * i + 1] as u32 == digit(bytes[i] as int % 16)
        },
    decreases bytes.len(),
{
    if bytes.len() > 0 {
        a_byte_is_two_digits(bytes.drop_last(), i);
    }
}

/// A field that was left empty has its default.
pub proof fn an_empty_field_has_its_default(value: Seq<char>, default: Seq<char>)
    ensures
        trimmed(value).len() == 0 ==> defaulted(value, default) == default,
        trimmed(value).len() > 0 ==> defaulted(value, default) == trimmed(value),
{
}

/// A client connects exactly from settings of no server, to an endpoint in order.
pub proof fn a_client_connects_exactly_to_an_endpoint(
    config: SettingsModel,
    address: Seq<char>,
    port: Seq<char>,
)
    ensures
        connect_fault(config, address, port) is None <==> !config.has_server_settings()
            && client_endpoint_fault(
            trimmed(defaulted(address, ""@)),
            trimmed(defaulted(port, "45890"@)),
        ) is None,
{
}

/// A client that connects shows no catalogue, unless a wake is under way, and the
/// connection as such once it stands; a failed one waits for its time.
pub proof fn a_connection_is_shown(view: ViewModel, attempt: u32, peer: Seq<char>, now: u64)
    ensures
        ({
            let after = view.connecting(attempt);
            &&& after.connection.phase == ClientConnectionPhase::Connecting
            &&& after.connection.attempt == attempt && after.connection.retry_at is None
            &&& view.wake is None ==> after.catalog_version == 0 && after.hosts.len() == 0
            &&& view.wake is Some ==> after.catalog_version == view.catalog_version && after.hosts
                == view.hosts && after.wake == view.wake
        }),
        ({
            let after = view.authenticated(peer);
            &&& after.connection.phase == ClientConnectionPhase::Connected
            &&& after.connection.error_code is None && after.connection.error_message is None
                && after.connection.retry_at is None
            &&& after.wake == view.wake && after.hosts == view.hosts && after.screen == view.screen
        }),
        ({
            let after = view.disconnected();
            &&& after.connection.phase == ClientConnectionPhase::Disconnected
            &&& after.wake is None
            &&& view.screen == Screen::ClientHosts || view.screen == Screen::Wake ==> after.screen
                == Screen::ClientConnect
            &&& view.screen != Screen::ClientHosts && view.screen != Screen::Wake ==> after.screen
                == view.screen
        }),
{
}

/// A failed attempt shows its number, its code and its message, and when the next one
/// is due.
pub proof fn a_failed_attempt_shows_when_the_next_is_due(
    view: ViewModel,
    attempt: u32,
    code: crate::client::ClientConnectionErrorCode,
    message: Seq<char>,
    retry_after: u64,
    now: u64,
)
    ensures
        ({
            let after = view.applied(
                NewsModel::ConnectionFailed { attempt, code, message, retry_after },
                now,
            );
            &&& after.connection.phase == ClientConnectionPhase::RetryWaiting
            &&& after.connection.attempt == attempt
            &&& after.connection.error_code == Some(code.text())
            &&& after.connection.error_message == Some(crate::forms::one_line(message))
            &&& now + retry_after <= u64::MAX ==> after.connection.retry_at == Some(
                (now + retry_after) as u64,
            )
            &&& now + retry_after > u64::MAX ==> after.connection.retry_at == Some(u64::MAX)
            &&& after.wake == view.wake && after.hosts == view.hosts && after.screen == view.screen
        }),
{
}

/// A wake that is sent is shown, with its targets neither seen nor refused.
pub proof fn a_sent_wake_is_shown(
    view: ViewModel,
    operation_id: [u8; 16],
    boot_nonce: [u8; 16],
    now: u64,
    i: int,
)
    requires
        view.wake_refusal(true) is None,
    ensures
        ({
            let after = view.started(true, operation_id, boot_nonce, now);
            let wake = view.first_wake(operation_id, boot_nonce, now);
            &&& after.screen == Screen::Wake
            &&& after.wake == Some(wake)
            &&& after.display.phase == WakePhase::Sending && after.display.attempt == 1
                && !after.display.receipt && after.display.started_at == now
                && after.display.deadline == wake.progress.deadline
            &&& after.display.online.len() == wake.targets.len()
            &&& after.display.rejected.len() == wake.targets.len()
            &&& 0 <= i < wake.targets.len() ==> !after.display.online[i]
                && !after.display.rejected[i]
            &&& after.hosts == view.hosts && after.connection == view.connection
        }),
{
}

/// The second attempt of a wake keeps its targets, its nonce and its ticket, and begins
/// anew otherwise; where it cannot be sent the wake is given up.
pub proof fn a_second_attempt_begins_anew(view: ViewModel, now: u64, i: int)
    requires
        view.retries(now),
        now <= CLOCK_END,
    ensures
        ({
            let after = view.retried(true, now);
            let was = view.wake->0;
            let wake = after.wake->0;
            &&& after.wake is Some
            &&& wake.attempt == 2 && !wake.receipt && wake.receipt_deadline == now + 15_000_000_000
            &&& wake.operation_id == was.operation_id && wake.boot_nonce == was.boot_nonce
                && wake.targets == was.targets && wake.ticket == was.ticket && wake.catalog_version
                == was.catalog_version && wake.finished == was.finished
            &&& wake.progress.accepted == Set::<Seq<char>>::empty() && wake.progress.online
                == Set::<Seq<char>>::empty() && wake.progress.deadline == now + 60_000_000_000
            &&& after.display.attempt == 2 && after.display.phase == WakePhase::Retrying
                && after.display.started_at == now && after.display.deadline == now
                + 60_000_000_000
            &&& 0 <= i < view.display.online.len() ==> !after.display.online[i]
            &&& view.retried(false, now).wake is None
            &&& view.retried(false, now).screen == Screen::ClientHosts
        }),
{
}

/// A wake that is under way is taken up again after a new connection exactly within a
/// quarter of an hour, and for its second attempt with its ticket.
pub proof fn a_wake_is_taken_up_again_in_time(view: ViewModel, now: u64)
    requires
        now <= CLOCK_END,
    ensures
        ({
            let wake = view.wake->0;
            let runs = view.wake is Some && !wake.finished;
            let late = elapsed(wake.progress.created_at, now) >= 900_000_000_000;
            let blind = wake.attempt == 2 && wake.ticket is None;
            let after = view.taken_up(true, now);
            &&& view.resends(now) <==> runs && !late && !blind
            &&& view.resends(now) ==> after.wake is Some && !after.wake->0.receipt
                && after.wake->0.receipt_deadline == now + 15_000_000_000
                && after.wake->0.operation_id == wake.operation_id && after.wake->0.targets
                == wake.targets && after.wake->0.attempt == wake.attempt && after.wake->0.ticket
                == wake.ticket && after.wake->0.progress == wake.progress && after.display.phase
                == if wake.attempt == 2 {
                WakePhase::Retrying
            } else {
                WakePhase::Sending
            }
            &&& !view.resends(now) ==> after == view
            &&& runs && late ==> view.resumed(now).wake is Some && view.resumed(
                now,
            ).wake->0.finished && view.resumed(now).display.phase == WakePhase::Failed
            &&& runs && !late ==> view.resumed(now).wake == view.wake
            &&& !runs ==> view.resumed(now) == view
        }),
{
}

/// A gauge shows the seconds that went by, sixty at most, and the colour of the outcome.
pub proof fn a_gauge_shows_the_time(phase: WakePhase, elapsed: u64, remaining: u64)
    ensures
        ({
            let gauge = gauge_of(phase, elapsed, remaining);
            let over = phase == WakePhase::Complete || phase == WakePhase::Partial || phase
                == WakePhase::Failed;
            &&& gauge.0 <= 60
            &&& over ==> gauge.0 == 60
            &&& !over && elapsed <= 60 ==> gauge.0 == elapsed
            &&& !over && elapsed > 60 ==> gauge.0 == 60
            &&& gauge.2 == GaugeColor::Green <==> phase == WakePhase::Complete
            &&& gauge.2 == GaugeColor::Yellow <==> phase == WakePhase::Partial
            &&& gauge.2 == GaugeColor::Red <==> phase == WakePhase::Failed
            &&& !over ==> gauge.1 == decimal(remaining as nat) + "s"@
        }),
{
}

} // verus!
