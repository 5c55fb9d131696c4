//! What the pages of a server show, and the settings that they stand for.

use crate::client_view::{row_models, HostRow, RowHostState, RowModel};
use crate::config::{
    allowed_models, copy_clients, derived_public, host_id_of, host_models, key_text, pair_texts,
    AllowedClient, AllowedModel, AppConfig, ClientConfig, ConfigError, EndpointModel, HostConfig,
    HostModel, ListenerModel, SecurityModel, ServerConfig, SettingsModel, DEFAULT_PORT,
};
use crate::crypto::random_32;
use crate::forms::{
    complains, kept_hosts, listen_fault, parse_port, parse_skew, permission_count, port_read,
    reconcile_client_host_permissions, removed_count, skew_read, validate_listen_address,
};
use crate::header_map::{collect_headers, collected};
use crate::net::{ip_literal, ip_text, parse_ip, IpAddress};
use crate::protocol::{header_models, Header, HeaderModel};
use crate::text::{
    before, decimal, decimal_text, joined, lower_text, lowered, same_text, starts_with, text_from,
    texts, trim, trimmed,
};
use vstd::prelude::*;

verus! {

pub const DEFAULT_CUSTOM_BIND: &'static str = "127.0.0.1";

pub const DEFAULT_V4_BIND: &'static str = "0.0.0.0";

pub const DEFAULT_V6_BIND: &'static str = "::";

pub const DEFAULT_SERVER_PORT: &'static str = "45890";

pub const DEFAULT_CLOCK_SKEW: &'static str = "30";

pub const DEFAULT_CLIENT_ADDRESS: &'static str = "";

pub const DEFAULT_CLIENT_PORT: &'static str = "45890";

/// Where the server listens.
#[derive(Clone, Copy, Debug, PartialEq, Eq, Structural)]
pub enum ListenMode {
    Custom,
    V4Only,
    V6Only,
    DualStack,
}

/// The addresses as they are typed in.
pub struct ListenForm {
    pub mode: ListenMode,
    pub custom: String,
    pub v4: String,
    pub v6: String,
}

pub struct ListenModel {
    pub mode: ListenMode,
    pub custom: Seq<char>,
    pub v4: Seq<char>,
    pub v6: Seq<char>,
}

impl View for ListenForm {
    type V = ListenModel;

    open spec fn view(&self) -> ListenModel {
        ListenModel { mode: self.mode, custom: self.custom@, v4: self.v4@, v6: self.v6@ }
    }
}

/// A row of enrolled clients.
pub struct ClientRow {
    pub label: String,
    pub access: String,
}

pub struct ClientRowModel {
    pub label: Seq<char>,
    pub access: Seq<char>,
}

impl View for ClientRow {
    type V = ClientRowModel;

    open spec fn view(&self) -> ClientRowModel {
        ClientRowModel { label: self.label@, access: self.access@ }
    }
}

pub open spec fn client_rows(rows: Seq<ClientRow>) -> Seq<ClientRowModel> {
    rows.map_values(|row: ClientRow| row@)
}

/// What the pages of a server show.
pub struct ServerView {
    pub hosts: Vec<HostRow>,
    pub clients: Vec<ClientRow>,
    pub headers: Vec<Header>,
    pub host_index: usize,
    pub credential_index: usize,
    pub header_index: usize,
    pub listen: ListenForm,
    pub server_port: String,
    pub clock_skew: String,
    pub address: String,
    pub port: String,
    pub server_public_key: String,
    pub deployment_summary: String,
}

pub struct ShownModel {
    pub hosts: Seq<RowModel>,
    pub clients: Seq<ClientRowModel>,
    pub headers: Seq<HeaderModel>,
    pub host_index: usize,
    pub credential_index: usize,
    pub header_index: usize,
    pub listen: ListenModel,
    pub server_port: Seq<char>,
    pub clock_skew: Seq<char>,
    pub address: Seq<char>,
    pub port: Seq<char>,
    pub server_public_key: Seq<char>,
    pub deployment_summary: Seq<char>,
}

impl View for ServerView {
    type V = ShownModel;

    open spec fn view(&self) -> ShownModel {
        ShownModel {
            hosts: row_models(self.hosts@),
            clients: client_rows(self.clients@),
            headers: header_models(self.headers@),
            host_index: self.host_index,
            credential_index: self.credential_index,
            header_index: self.header_index,
            listen: self.listen@,
            server_port: self.server_port@,
            clock_skew: self.clock_skew@,
            address: self.address@,
            port: self.port@,
            server_public_key: self.server_public_key@,
            deployment_summary: self.deployment_summary@,
        }
    }
}

/// The row of a host. Its name is the label of the operator, if there is one.
pub open spec fn row_of(host: HostModel) -> RowModel {
    RowModel {
        id: host_id_of(host.hostname),
        name: if trimmed(host.display_name).len() == 0 {
            trimmed(host.hostname)
        } else {
            trimmed(host.display_name)
        },
        mac: trimmed(host.mac),
        ip: trimmed(host.ip),
        wol_ipv6_interface: host.wol_ipv6_interface,
        state: RowHostState::Unknown,
        selected: false,
    }
}

/// How many of the hosts a client may use, in words.
pub open spec fn access_of(allowed: nat, hosts: nat) -> Seq<char> {
    if hosts != 0 && allowed == hosts {
        "全部 "@ + decimal(allowed) + " 台主机"@
    } else {
        decimal(allowed) + " 台主机"@
    }
}

pub open spec fn client_row_of(client: AllowedModel, hosts: nat) -> ClientRowModel {
    ClientRowModel {
        label: client.client_id,
        access: access_of(client.allowed_hosts.len(), hosts),
    }
}

/// A place in a list, or its last one.
pub open spec fn kept_index(index: usize, len: nat) -> usize {
    if index < len {
        index
    } else if len == 0 {
        0
    } else {
        (len - 1) as usize
    }
}

/// The key without the word that says how it is written.
pub open spec fn bare_key(text: Seq<char>) -> Seq<char> {
    if "hex:"@.is_prefix_of(text) {
        text.skip(4)
    } else {
        text
    }
}

/// The skew in seconds, between one and sixty.
pub open spec fn shown_skew(skew: u64) -> u64 {
    if skew < 1 {
        1
    } else if skew > 60 {
        60
    } else {
        skew
    }
}

impl ListenModel {
    /// The form for the listeners of the settings. What they do not speak of
    /// stays as it is.
    pub open spec fn loaded(self, server: ListenerModel) -> ListenModel {
        let bind = trimmed(server.bind_address);
        match ip_literal(bind) {
            Some(ip) => {
                if ip is V4 {
                    ListenModel { mode: ListenMode::V4Only, v4: ip.text(), ..self }
                } else if server.dual_stack {
                    ListenModel {
                        mode: ListenMode::DualStack,
                        v6: ip.text(),
                        v4: trimmed(server.bind_address_v4),
                        ..self
                    }
                } else {
                    ListenModel { mode: ListenMode::V6Only, v6: ip.text(), ..self }
                }
            },
            None => ListenModel { mode: ListenMode::Custom, custom: bind, ..self },
        }
    }

    /// The complaint about the addresses that the mode asks for.
    pub open spec fn fault(self) -> Option<Seq<char>> {
        match self.mode {
            ListenMode::Custom => listen_fault(trimmed(self.custom), None),
            ListenMode::V4Only => listen_fault(trimmed(self.v4), Some(false)),
            ListenMode::V6Only => listen_fault(trimmed(self.v6), Some(true)),
            ListenMode::DualStack => if listen_fault(trimmed(self.v6), Some(true)) is Some {
                listen_fault(trimmed(self.v6), Some(true))
            } else {
                listen_fault(trimmed(self.v4), Some(false))
            },
        }
    }

    /// The listeners that the form stands for.
    pub open spec fn saved(self, before: ListenerModel, port: u16) -> ListenerModel {
        match self.mode {
            ListenMode::Custom => ListenerModel {
                bind_address: trimmed(self.custom),
                dual_stack: false,
                port,
                ..before
            },
            ListenMode::V4Only => ListenerModel {
                bind_address: trimmed(self.v4),
                dual_stack: false,
                port,
                ..before
            },
            ListenMode::V6Only => ListenerModel {
                bind_address: trimmed(self.v6),
                dual_stack: false,
                port,
                ..before
            },
            ListenMode::DualStack => ListenerModel {
                bind_address: trimmed(self.v6),
                bind_address_v4: trimmed(self.v4),
                dual_stack: true,
                port,
            },
        }
    }
}

impl ShownModel {
    /// The view of settings and their enrolled clients.
    pub open spec fn loaded(
        self,
        config: SettingsModel,
        clients: Seq<AllowedModel>,
        path: Seq<char>,
    ) -> ShownModel {
        ShownModel {
            hosts: config.hosts.map_values(|host: HostModel| row_of(host)),
            clients: clients.map_values(
                |client: AllowedModel| client_row_of(client, config.hosts.len()),
            ),
            headers: config.security.custom_headers,
            host_index: kept_index(self.host_index, config.hosts.len()),
            credential_index: kept_index(self.credential_index, clients.len()),
            header_index: kept_index(self.header_index, config.security.custom_headers.len()),
            listen: self.listen.loaded(config.server),
            server_port: decimal(config.server.port as nat),
            clock_skew: decimal(shown_skew(config.security.clock_skew_seconds) as nat),
            address: if trimmed(config.client.address).len() == 0 {
                DEFAULT_CLIENT_ADDRESS@
            } else {
                trimmed(config.client.address)
            },
            port: if config.client.port == 0 {
                DEFAULT_CLIENT_PORT@
            } else {
                decimal(config.client.port as nat)
            },
            server_public_key: bare_key(config.security.server_static_public_key),
            deployment_summary: "配置文件  "@ + path,
        }
    }

    /// The view before anything was saved: the defaults are there to be edited,
    /// and nothing is shown as deployed.
    pub open spec fn uninitialized(self) -> ShownModel {
        ShownModel {
            listen: ListenModel {
                mode: ListenMode::DualStack,
                custom: DEFAULT_CUSTOM_BIND@,
                v4: DEFAULT_V4_BIND@,
                v6: DEFAULT_V6_BIND@,
            },
            server_port: DEFAULT_SERVER_PORT@,
            clock_skew: DEFAULT_CLOCK_SKEW@,
            address: DEFAULT_CLIENT_ADDRESS@,
            port: DEFAULT_CLIENT_PORT@,
            server_public_key: Seq::empty(),
            deployment_summary: "尚未保存配置"@,
            ..self
        }
    }
}

fn write_access(allowed: usize, hosts: usize) -> (r: String)
    ensures
        r@ == access_of(allowed as nat, hosts as nat),
{
    let mut text: String = if hosts != 0 && allowed == hosts {
        joined("全部 ", &decimal_text(allowed as u64))
    } else {
        decimal_text(allowed as u64)
    };
    text.append(" 台主机");
    text
}

pub(crate) fn keep_index(index: usize, len: usize) -> (r: usize)
    ensures
        r == kept_index(index, len as nat),
{
    if index < len {
        index
    } else if len == 0 {
        0
    } else {
        len - 1
    }
}

pub fn strip_key(text: &str) -> (r: String)
    ensures
        r@ == bare_key(text@),
{
    proof {
        reveal_strlit("hex:");
    }
    if starts_with(text, "hex:") {
        text_from(text, 4)
    } else {
        text.to_owned()
    }
}

impl HostConfig {
    fn row(&self) -> (r: HostRow)
        ensures
            r@ == row_of(self@),
    {
        let label: String = trim(&self.display_name);
        HostRow {
            id: self.host_id(),
            name: if label.as_str().is_empty() {
                trim(&self.hostname)
            } else {
                label
            },
            mac: trim(&self.mac),
            ip: trim(&self.ip),
            wol_ipv6_interface: self.wol_ipv6_interface,
            state: RowHostState::Unknown,
            selected: false,
        }
    }
}

#[verifier::loop_isolation(false)]
fn rows_of(hosts: &Vec<HostConfig>) -> (r: Vec<HostRow>)
    ensures
        row_models(r@) == host_models(hosts@).map_values(|host: HostModel| row_of(host)),
{
    let mut out: Vec<HostRow> = Vec::new();
    let mut i: usize = 0;
    while i < hosts.len()
        invariant
            i == out@.len() <= hosts@.len(),
            forall|k: int| 0 <= k < i ==> (#[trigger] out@[k])@ == row_of(hosts@[k]@),
        decreases hosts@.len() - i,
    {
        out.push(hosts[i].row());
        i += 1;
    }
    assert(row_models(out@) =~= host_models(hosts@).map_values(|host: HostModel| row_of(host)));
    out
}

#[verifier::loop_isolation(false)]
fn client_rows_of(clients: &Vec<AllowedClient>, hosts: usize) -> (r: Vec<ClientRow>)
    ensures
        client_rows(r@) == allowed_models(clients@).map_values(
            |client: AllowedModel| client_row_of(client, hosts as nat),
        ),
{
    let mut out: Vec<ClientRow> = Vec::new();
    let mut i: usize = 0;
    while i < clients.len()
        invariant
            i == out@.len() <= clients@.len(),
            forall|k: int|
                0 <= k < i ==> (#[trigger] out@[k])@ == client_row_of(clients@[k]@, hosts as nat),
        decreases clients@.len() - i,
    {
        let client: &AllowedClient = &clients[i];
        assert(texts(client.allowed_hosts@).len() == client.allowed_hosts@.len());
        out.push(
            ClientRow {
                label: client.client_id.clone(),
                access: write_access(client.allowed_hosts.len(), hosts),
            },
        );
        i += 1;
    }
    assert(client_rows(out@) =~= allowed_models(clients@).map_values(
        |client: AllowedModel| client_row_of(client, hosts as nat),
    ));
    out
}

impl ListenForm {
    fn load(&mut self, server: &ServerConfig)
        ensures
            final(self)@ == old(self)@.loaded(server@),
    {
        let bind: String = trim(&server.bind_address);
        match parse_ip(&bind) {
            Some(ip) => {
                let text: String = ip_text(&ip);
                match ip {
                    IpAddress::V4(_) => {
                        self.mode = ListenMode::V4Only;
                        self.v4 = text;
                    },
                    IpAddress::V6(_) => {
                        self.v6 = text;
                        if server.dual_stack {
                            self.mode = ListenMode::DualStack;
                            self.v4 = trim(&server.bind_address_v4);
                        } else {
                            self.mode = ListenMode::V6Only;
                        }
                    },
                }
            },
            None => {
                self.mode = ListenMode::Custom;
                self.custom = bind;
            },
        }
    }

    fn check(&self) -> (r: Result<(), String>)
        ensures
            complains(r, self@.fault()),
    {
        match self.mode {
            ListenMode::Custom => validate_listen_address(&trim(&self.custom), None),
            ListenMode::V4Only => validate_listen_address(&trim(&self.v4), Some(false)),
            ListenMode::V6Only => validate_listen_address(&trim(&self.v6), Some(true)),
            ListenMode::DualStack => {
                match validate_listen_address(&trim(&self.v6), Some(true)) {
                    Ok(()) => validate_listen_address(&trim(&self.v4), Some(false)),
                    Err(text) => Err(text),
                }
            },
        }
    }

    fn save(&self, before: &ServerConfig, port: u16) -> (r: ServerConfig)
        ensures
            r@ == self@.saved(before@, port),
    {
        let dual_stack: bool = self.mode == ListenMode::DualStack;
        ServerConfig {
            bind_address: match self.mode {
                ListenMode::Custom => trim(&self.custom),
                ListenMode::V4Only => trim(&self.v4),
                _ => trim(&self.v6),
            },
            bind_address_v4: if dual_stack {
                trim(&self.v4)
            } else {
                before.bind_address_v4.clone()
            },
            port,
            dual_stack,
        }
    }
}

impl ServerView {
    /// Shows the settings.
    pub fn load_view_from_config(
        &mut self,
        config: &AppConfig,
        clients: &Vec<AllowedClient>,
        path: &str,
    )
        ensures
            final(self)@ == old(self)@.loaded(config@, allowed_models(clients@), path@),
    {
        let ghost before = self@;
        let headers: Vec<Header> = config.security.custom_headers.clone();
        assert(headers@ =~= config.security.custom_headers@);
        assert(config@.hosts.len() == config.hosts@.len());
        assert(allowed_models(clients@).len() == clients@.len());
        assert(header_models(headers@).len() == headers@.len());
        self.hosts = rows_of(&config.hosts);
        self.clients = client_rows_of(clients, config.hosts.len());
        self.host_index = keep_index(self.host_index, config.hosts.len());
        self.credential_index = keep_index(self.credential_index, clients.len());
        self.header_index = keep_index(self.header_index, headers.len());
        self.headers = headers;
        self.listen.load(&config.server);
        self.server_port = decimal_text(config.server.port as u64);
        let skew: u64 = config.security.clock_skew_seconds;
        self.clock_skew = decimal_text(
            if skew < 1 {
                1
            } else if skew > 60 {
                60
            } else {
                skew
            },
        );
        let address: String = trim(&config.client.address);
        self.address = if address.as_str().is_empty() {
            DEFAULT_CLIENT_ADDRESS.to_owned()
        } else {
            address
        };
        self.port = if config.client.port == 0 {
            DEFAULT_CLIENT_PORT.to_owned()
        } else {
            decimal_text(config.client.port as u64)
        };
        self.server_public_key = strip_key(&config.security.server_static_public_key);
        self.deployment_summary = joined("配置文件  ", path);
    }

    /// Shows that nothing was saved yet.
    pub fn mark_uninitialized_view(&mut self)
        ensures
            final(self)@ == old(self)@.uninitialized(),
    {
        self.listen = ListenForm {
            mode: ListenMode::DualStack,
            custom: DEFAULT_CUSTOM_BIND.to_owned(),
            v4: DEFAULT_V4_BIND.to_owned(),
            v6: DEFAULT_V6_BIND.to_owned(),
        };
        self.server_port = DEFAULT_SERVER_PORT.to_owned();
        self.clock_skew = DEFAULT_CLOCK_SKEW.to_owned();
        self.address = DEFAULT_CLIENT_ADDRESS.to_owned();
        self.port = DEFAULT_CLIENT_PORT.to_owned();
        self.server_public_key = String::new();
        self.deployment_summary = "尚未保存配置".to_owned();
        assert(self.server_public_key@ =~= Seq::<char>::empty());
    }
}

/// The first of the hosts with an identifier.
pub open spec fn host_named(hosts: Seq<HostModel>, id: Seq<char>) -> Option<HostModel>
    decreases hosts.len(),
{
    if hosts.len() == 0 {
        None
    } else if host_id_of(hosts[0].hostname) == id {
        Some(hosts[0])
    } else {
        host_named(hosts.drop_first(), id)
    }
}

/// The host that a row stands for. What the row does not show it has from the
/// settings before, where they know it.
pub open spec fn host_of(row: RowModel, before: Seq<HostModel>) -> HostModel {
    let was = host_named(before, host_id_of(row.id));
    let name = trimmed(row.name);
    HostModel {
        hostname: trimmed(row.id),
        display_name: if name.len() != 0 && lowered(name) != lowered(trimmed(row.id)) {
            name
        } else {
            Seq::empty()
        },
        mac: trimmed(row.mac),
        ip: trimmed(row.ip),
        wol_port: if was is Some {
            was->0.wol_port
        } else {
            9
        },
        probe_timeout_ms: if was is Some {
            was->0.probe_timeout_ms
        } else {
            1000
        },
        probe_port: if was is Some {
            was->0.probe_port
        } else {
            0
        },
        wol_ipv6_interface: row.wol_ipv6_interface,
    }
}

/// The identifiers of the rows.
pub open spec fn row_ids(rows: Seq<RowModel>) -> Seq<Seq<char>> {
    rows.map_values(|row: RowModel| host_id_of(row.id))
}

/// The clients with their permissions put right.
pub open spec fn reconciled(clients: Seq<AllowedModel>, ids: Seq<Seq<char>>) -> Seq<AllowedModel> {
    clients.map_values(
        |client: AllowedModel|
            AllowedModel { allowed_hosts: kept_hosts(client.allowed_hosts, ids), ..client },
    )
}

/// The first of the clients with this name, in whatever case.
pub open spec fn client_named(clients: Seq<AllowedModel>, label: Seq<char>) -> Option<AllowedModel>
    decreases clients.len(),
{
    if clients.len() == 0 {
        None
    } else if lowered(clients[0].client_id) == lowered(label) {
        Some(clients[0])
    } else {
        client_named(clients.drop_first(), label)
    }
}

/// The row with what its client may use.
pub open spec fn row_with_access(
    row: ClientRowModel,
    clients: Seq<AllowedModel>,
    hosts: nat,
) -> ClientRowModel {
    match client_named(clients, row.label) {
        Some(client) => ClientRowModel {
            access: access_of(client.allowed_hosts.len(), hosts),
            ..row
        },
        None => row,
    }
}

impl SettingsModel {
    /// These are the settings of a client.
    pub open spec fn has_client_settings(self) -> bool {
        ||| trimmed(self.client.address).len() != 0
        ||| trimmed(self.client.client_id).len() != 0
        ||| trimmed(self.client.static_private_key).len() != 0
        ||| trimmed(self.client.static_public_key).len() != 0
        ||| trimmed(self.client.pinned_server_static_key).len() != 0
    }

    /// These are the settings of a server.
    pub open spec fn has_server_settings(self) -> bool {
        ||| trimmed(self.security.server_static_private_key).len() != 0
        ||| trimmed(self.security.server_static_public_key).len() != 0
        ||| self.hosts.len() != 0
        ||| self.security.allowed_clients.len() != 0
    }

    /// The complaint about the server's key pair.
    pub open spec fn identity_fault(self) -> Option<Seq<char>> {
        let private = self.security.server_static_private_key;
        let public = self.security.server_static_public_key;
        if private.len() == 0 && public.len() != 0 {
            Some("server public key requires its private key"@)
        } else if private.len() != 0 && public.len() == 0 && derived_public(private) is Err {
            Some(derived_public(private)->Err_0)
        } else {
            None
        }
    }

    /// The server's key pair, made whole: where there is none, that of `fresh`.
    pub open spec fn identity(self, fresh: Seq<u8>) -> (Seq<char>, Seq<char>) {
        let private = self.security.server_static_private_key;
        let public = self.security.server_static_public_key;
        if private.len() == 0 {
            pair_texts(fresh)
        } else if public.len() == 0 {
            (private, derived_public(private)->Ok_0)
        } else {
            (private, public)
        }
    }

    /// The secret, or where there is none, that of `fresh`.
    pub open spec fn secret(self, fresh: Seq<u8>) -> Seq<char> {
        if trimmed(self.security.shared_secret).len() == 0 {
            key_text(fresh)
        } else {
            self.security.shared_secret
        }
    }
}

impl EndpointModel {
    /// No settings of a client.
    pub open spec fn none() -> EndpointModel {
        EndpointModel {
            address: Seq::empty(),
            port: DEFAULT_PORT,
            client_id: Seq::empty(),
            static_private_key: Seq::empty(),
            static_public_key: Seq::empty(),
            pinned_server_static_key: Seq::empty(),
        }
    }
}

impl ShownModel {
    /// Why the view cannot be turned into settings.
    pub open spec fn fault(self, config: SettingsModel) -> Option<Seq<char>> {
        if config.has_client_settings() {
            Some("当前配置包含终端模式设置，请使用独立的服务端配置文件"@)
        } else if config.identity_fault() is Some {
            config.identity_fault()
        } else if port_read(trimmed(self.server_port)) is Err {
            Some(port_read(trimmed(self.server_port))->Err_0)
        } else if skew_read(trimmed(self.clock_skew)) is Err {
            Some(skew_read(trimmed(self.clock_skew))->Err_0)
        } else {
            self.listen.fault()
        }
    }

    /// The settings that the view stands for.
    pub open spec fn saved(
        self,
        config: SettingsModel,
        clients: Seq<AllowedModel>,
        secret: Seq<u8>,
        private: Seq<u8>,
    ) -> SettingsModel {
        SettingsModel {
            config_version: config.config_version,
            server: self.listen.saved(
                config.server,
                port_read(trimmed(self.server_port))->Ok_0,
            ),
            security: SecurityModel {
                shared_secret: config.secret(secret),
                clock_skew_seconds: skew_read(trimmed(self.clock_skew))->Ok_0,
                custom_headers: collected(self.headers),
                server_static_private_key: config.identity(private).0,
                server_static_public_key: config.identity(private).1,
                allowed_clients: reconciled(clients, row_ids(self.hosts)),
                ..config.security
            },
            hosts: self.hosts.map_values(|row: RowModel| host_of(row, config.hosts)),
            client: EndpointModel::none(),
        }
    }

    /// The view with what each client may use.
    pub open spec fn with_access(self, clients: Seq<AllowedModel>) -> ShownModel {
        ShownModel {
            clients: self.clients.map_values(
                |row: ClientRowModel| row_with_access(row, clients, self.hosts.len()),
            ),
            ..self
        }
    }
}

impl AppConfig {
    pub fn has_client_settings(&self) -> (r: bool)
        ensures
            r == self@.has_client_settings(),
    {
        !trim(&self.client.address).as_str().is_empty() || !trim(
            &self.client.client_id,
        ).as_str().is_empty() || !trim(&self.client.static_private_key).as_str().is_empty()
            || !trim(&self.client.static_public_key).as_str().is_empty() || !trim(
            &self.client.pinned_server_static_key,
        ).as_str().is_empty()
    }

    pub fn has_server_settings(&self) -> (r: bool)
        ensures
            r == self@.has_server_settings(),
    {
        assert(self@.hosts.len() == self.hosts@.len());
        assert(self@.security.allowed_clients.len() == self.security.allowed_clients@.len());
        !trim(&self.security.server_static_private_key).as_str().is_empty() || !trim(
            &self.security.server_static_public_key,
        ).as_str().is_empty() || self.hosts.len() != 0 || self.security.allowed_clients.len() != 0
    }
}

#[verifier::loop_isolation(false)]
fn find_host(hosts: &Vec<HostConfig>, id: &str) -> (r: Option<usize>)
    ensures
        match r {
            Some(i) => i < hosts@.len() && host_named(host_models(hosts@), id@) == Some(
                hosts@[i as int]@,
            ),
            None => host_named(host_models(hosts@), id@) is None,
        },
{
    let ghost all = host_models(hosts@);
    let mut i: usize = 0;
    assert(all.skip(0) =~= all);
    while i < hosts.len()
        invariant
            i <= hosts@.len(),
            host_named(all, id@) == host_named(all.skip(i as int), id@),
        decreases hosts@.len() - i,
    {
        assert(all.skip(i as int)[0] == hosts@[i as int]@);
        assert(all.skip(i as int).drop_first() =~= all.skip(i + 1));
        if same_text(&hosts[i].host_id(), id) {
            return Some(i);
        }
        i += 1;
    }
    None
}

fn host_from(row: &HostRow, before: &Vec<HostConfig>) -> (r: HostConfig)
    ensures
        r@ == host_of(row@, host_models(before@)),
{
    let id: String = trim(&row.id);
    let name: String = trim(&row.name);
    let folded: String = lower_text(&id);
    let was: Option<usize> = find_host(before, &folded);
    let wol_port: u16 = match was {
        Some(i) => before[i].wol_port,
        None => 9,
    };
    let probe_timeout_ms: u64 = match was {
        Some(i) => before[i].probe_timeout_ms,
        None => 1000,
    };
    let probe_port: u16 = match was {
        Some(i) => before[i].probe_port,
        None => 0,
    };
    let display_name: String = if !name.as_str().is_empty() && !same_text(
        &lower_text(&name),
        &folded,
    ) {
        name
    } else {
        String::new()
    };
    let host = HostConfig {
        hostname: id,
        display_name,
        mac: trim(&row.mac),
        ip: trim(&row.ip),
        wol_port,
        probe_timeout_ms,
        probe_port,
        wol_ipv6_interface: row.wol_ipv6_interface,
    };
    assert(host@.display_name =~= host_of(row@, host_models(before@)).display_name);
    host
}

#[verifier::loop_isolation(false)]
fn hosts_from(rows: &Vec<HostRow>, before: &Vec<HostConfig>) -> (r: Vec<HostConfig>)
    ensures
        host_models(r@) == row_models(rows@).map_values(
            |row: RowModel| host_of(row, host_models(before@)),
        ),
{
    let mut out: Vec<HostConfig> = Vec::new();
    let mut i: usize = 0;
    while i < rows.len()
        invariant
            i == out@.len() <= rows@.len(),
            forall|k: int|
                0 <= k < i ==> (#[trigger] out@[k])@ == host_of(rows@[k]@, host_models(before@)),
        decreases rows@.len() - i,
    {
        out.push(host_from(&rows[i], before));
        i += 1;
    }
    assert(host_models(out@) =~= row_models(rows@).map_values(
        |row: RowModel| host_of(row, host_models(before@)),
    ));
    out
}

#[verifier::loop_isolation(false)]
fn ids_of_rows(rows: &Vec<HostRow>) -> (r: Vec<String>)
    ensures
        texts(r@) == row_ids(row_models(rows@)),
{
    let mut out: Vec<String> = Vec::new();
    let mut i: usize = 0;
    while i < rows.len()
        invariant
            i == out@.len() <= rows@.len(),
            forall|k: int| 0 <= k < i ==> (#[trigger] out@[k])@ == host_id_of(rows@[k].id@),
        decreases rows@.len() - i,
    {
        out.push(lower_text(&trim(&rows[i].id)));
        i += 1;
    }
    assert(texts(out@) =~= row_ids(row_models(rows@)));
    out
}

#[verifier::loop_isolation(false)]
fn find_client(clients: &Vec<AllowedClient>, label: &str) -> (r: Option<usize>)
    ensures
        match r {
            Some(i) => i < clients@.len() && client_named(allowed_models(clients@), label@) == Some(
                clients@[i as int]@,
            ),
            None => client_named(allowed_models(clients@), label@) is None,
        },
{
    let ghost all = allowed_models(clients@);
    let folded: String = lower_text(label);
    let mut i: usize = 0;
    assert(all.skip(0) =~= all);
    while i < clients.len()
        invariant
            i <= clients@.len(),
            client_named(all, label@) == client_named(all.skip(i as int), label@),
        decreases clients@.len() - i,
    {
        assert(all.skip(i as int)[0] == clients@[i as int]@);
        assert(all.skip(i as int).drop_first() =~= all.skip(i + 1));
        if same_text(&lower_text(&clients[i].client_id), &folded) {
            return Some(i);
        }
        i += 1;
    }
    None
}

/// Settings that are ready to be written.
pub struct Draft {
    pub config: AppConfig,
    /// The permissions that were taken from clients because their host is gone.
    pub removed: usize,
}

impl ServerView {
    /// Shows what each client may use.
    #[verifier::loop_isolation(false)]
    pub fn show_access(&mut self, clients: &Vec<AllowedClient>)
        ensures
            final(self)@ == old(self)@.with_access(allowed_models(clients@)),
    {
        let ghost all = allowed_models(clients@);
        let ghost was = self@;
        let hosts: usize = self.hosts.len();
        assert(was.hosts.len() == hosts);
        let mut rows: Vec<ClientRow> = Vec::new();
        let mut i: usize = 0;
        while i < self.clients.len()
            invariant
                i == rows@.len() <= self.clients@.len(),
                forall|k: int|
                    0 <= k < i ==> (#[trigger] rows@[k])@ == row_with_access(
                        self.clients@[k]@,
                        all,
                        hosts as nat,
                    ),
            decreases self.clients@.len() - i,
        {
            let row: &ClientRow = &self.clients[i];
            let access: String = match find_client(clients, &row.label) {
                Some(k) => {
                    let n: usize = clients[k].allowed_hosts.len();
                    assert(clients@[k as int]@.allowed_hosts.len() == n);
                    write_access(n, hosts)
                },
                None => row.access.clone(),
            };
            rows.push(ClientRow { label: row.label.clone(), access });
            i += 1;
        }
        assert(client_rows(rows@) =~= was.with_access(all).clients);
        self.clients = rows;
    }

    /// Puts the permissions of the clients right, and shows what is left of them;
    /// the result is the number of those that are gone.
    pub fn reconcile_client_permissions(&mut self, clients: &mut Vec<AllowedClient>) -> (r: usize)
        requires
            permission_count(old(clients)@) <= usize::MAX,
        ensures
            r == removed_count(old(clients)@, row_ids(old(self)@.hosts)),
            allowed_models(final(clients)@) == reconciled(
                allowed_models(old(clients)@),
                row_ids(old(self)@.hosts),
            ),
            final(self)@ == old(self)@.with_access(allowed_models(final(clients)@)),
    {
        let ids: Vec<String> = ids_of_rows(&self.hosts);
        let ghost was = allowed_models(clients@);
        let removed: usize = reconcile_client_host_permissions(clients, &ids);
        assert(allowed_models(clients@) =~= reconciled(was, texts(ids@)));
        self.show_access(clients);
        removed
    }

    /// Puts what the view shows into settings.
    fn assemble(
        &self,
        base: AppConfig,
        clients: &Vec<AllowedClient>,
        port: u16,
        skew: u64,
    ) -> (r: Draft)
        requires
            permission_count(clients@) <= usize::MAX,
        ensures
            r.config@ == (SettingsModel {
                config_version: base@.config_version,
                server: self@.listen.saved(base@.server, port),
                security: SecurityModel {
                    clock_skew_seconds: skew,
                    custom_headers: collected(self@.headers),
                    allowed_clients: reconciled(allowed_models(clients@), row_ids(self@.hosts)),
                    ..base@.security
                },
                hosts: self@.hosts.map_values(|row: RowModel| host_of(row, base@.hosts)),
                client: EndpointModel::none(),
            }),
            r.removed == removed_count(clients@, row_ids(self@.hosts)),
    {
        let ids: Vec<String> = ids_of_rows(&self.hosts);
        let mut allowed: Vec<AllowedClient> = copy_clients(clients);
        proof {
            same_counts(allowed@, clients@, texts(ids@));
        }
        let ghost was = allowed_models(allowed@);
        let removed: usize = reconcile_client_host_permissions(&mut allowed, &ids);
        assert(allowed_models(allowed@) =~= reconciled(was, texts(ids@)));
        let mut config: AppConfig = base;
        let client: ClientConfig = ClientConfig::default();
        assert(client@.address =~= Seq::<char>::empty());
        assert(client@.client_id =~= Seq::<char>::empty());
        assert(client@.static_private_key =~= Seq::<char>::empty());
        assert(client@.static_public_key =~= Seq::<char>::empty());
        assert(client@.pinned_server_static_key =~= Seq::<char>::empty());
        config.client = client;
        config.hosts = hosts_from(&self.hosts, &config.hosts);
        config.security.custom_headers = collect_headers(&self.headers);
        config.security.allowed_clients = allowed;
        config.security.clock_skew_seconds = skew;
        config.server = self.listen.save(&config.server, port);
        Draft { config, removed }
    }

    /// Turns the view into settings, with a secret and a key pair for a server
    /// that has none.
    pub fn sync_with(
        &self,
        config: &AppConfig,
        clients: &Vec<AllowedClient>,
        secret: &[u8; 32],
        private: &[u8; 32],
    ) -> (r: Result<Draft, String>)
        requires
            permission_count(clients@) <= usize::MAX,
        ensures
            self@.is_drafted(r, config@, clients@, secret@, private@),
    {
        let base: AppConfig = match server_material(config, secret, private) {
            Ok(base) => base,
            Err(text) => {
                return Err(text);
            },
        };
        let port: u16 = match parse_port(&trim(&self.server_port)) {
            Ok(port) => port,
            Err(text) => {
                return Err(text);
            },
        };
        let skew: u64 = match parse_skew(&trim(&self.clock_skew)) {
            Ok(skew) => skew,
            Err(text) => {
                return Err(text);
            },
        };
        if let Err(text) = self.listen.check() {
            return Err(text);
        }
        let draft: Draft = self.assemble(base, clients, port, skew);
        let ghost model = self@.saved(config@, allowed_models(clients@), secret@, private@);
        assert(draft.config@ == model);
        match draft.config.validate() {
            Ok(()) => Ok(draft),
            Err(ConfigError::Invalid(text)) => {
                proof {
                    assert forall|other: AppConfig|
                        #![trigger other.fault()]
                        other@ == model implies other.fault() == Some(text@) by {
                        crate::config::same_settings_have_the_same_fault(draft.config, other);
                    }
                }
                Err(text)
            },
        }
    }

    /// Turns the view into settings. A server that has no secret or no key pair
    /// gets random ones.
    pub fn sync_server_from_view(&self, config: &AppConfig, clients: &Vec<AllowedClient>) -> (r:
        Result<Draft, String>)
        requires
            permission_count(clients@) <= usize::MAX,
        ensures
            exists|secret: [u8; 32], private: [u8; 32]| #[trigger]
                self@.is_drafted(r, config@, clients@, secret@, private@),
    {
        let secret: [u8; 32] = random_32();
        let private: [u8; 32] = random_32();
        self.sync_with(config, clients, &secret, &private)
    }
}

/// The settings with their secret and their key pair made whole.
fn server_material(config: &AppConfig, secret: &[u8; 32], private: &[u8; 32]) -> (r: Result<
    AppConfig,
    String,
>)
    ensures
        match r {
            Ok(base) => {
                &&& !config@.has_client_settings()
                &&& config@.identity_fault() is None
                &&& base@ == (SettingsModel {
                    security: SecurityModel {
                        shared_secret: config@.secret(secret@),
                        server_static_private_key: config@.identity(private@).0,
                        server_static_public_key: config@.identity(private@).1,
                        ..config@.security
                    },
                    ..config@
                })
            },
            Err(text) => if config@.has_client_settings() {
                text@ == "当前配置包含终端模式设置，请使用独立的服务端配置文件"@
            } else {
                config@.identity_fault() == Some(text@)
            },
        },
{
    if config.has_client_settings() {
        return Err("当前配置包含终端模式设置，请使用独立的服务端配置文件".to_owned());
    }
    let mut base: AppConfig = config.clone();
    base.ensure_secret_with(secret);
    match base.ensure_server_identity_with(private) {
        Ok(()) => Ok(base),
        Err(ConfigError::Invalid(text)) => Err(text),
    }
}

impl ShownModel {
    /// The outcome of turning the view into settings: settings that are valid, or
    /// the complaint about the view, or the one about the settings.
    pub open spec fn is_drafted(
        self,
        outcome: Result<Draft, String>,
        config: SettingsModel,
        clients: Seq<AllowedClient>,
        secret: Seq<u8>,
        private: Seq<u8>,
    ) -> bool {
        let model = self.saved(config, allowed_models(clients), secret, private);
        match outcome {
            Ok(draft) => {
                &&& self.fault(config) is None
                &&& draft.config@ == model
                &&& draft.config.fault() is None
                &&& draft.removed == removed_count(clients, row_ids(self.hosts))
            },
            Err(text) => match self.fault(config) {
                Some(complaint) => text@ == complaint,
                None => forall|other: AppConfig|
                    #![trigger other.fault()]
                    other@ == model ==> other.fault() == Some(text@),
            },
        }
    }
}

/// What was said of the counts for one list of clients holds for any other that
/// says the same.
proof fn same_counts(a: Seq<AllowedClient>, b: Seq<AllowedClient>, ids: Seq<Seq<char>>)
    requires
        allowed_models(a) == allowed_models(b),
    ensures
        permission_count(a) == permission_count(b),
        removed_count(a, ids) == removed_count(b, ids),
    decreases a.len(),
{
    assert(allowed_models(a).len() == a.len() && allowed_models(b).len() == b.len());
    if a.len() > 0 {
        assert(allowed_models(a).last() == a.last()@);
        assert(allowed_models(b).last() == b.last()@);
        assert(texts(a.last().allowed_hosts@).len() == a.last().allowed_hosts@.len());
        assert(texts(b.last().allowed_hosts@).len() == b.last().allowed_hosts@.len());
        assert(allowed_models(a.drop_last()) =~= allowed_models(a).drop_last());
        assert(allowed_models(b.drop_last()) =~= allowed_models(b).drop_last());
        same_counts(a.drop_last(), b.drop_last(), ids);
    }
}

} // verus!
