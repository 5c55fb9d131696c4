//! Issuing credentials, and editing what their clients may use.

use crate::client_view::{row_models, HostRow, RowModel, Screen};
use crate::config::{
    allowed_models, copy_clients, decode_key, host_id_of, identity_pair, key_read, key_text,
    pair_texts, AllowedClient, AllowedModel, AppConfig, ConfigError, SecurityModel, SettingsModel,
    MAX_CLIENTS,
};
use crate::credential::{BundleModel, CredentialBundle, CREDENTIAL_VERSION};
use crate::crypto::{random_32, x25519_public};
use crate::desk::{DeskModel, FormModel, IssueForm, ServerDesk};
use crate::forms::{credential_form_fault, permission_count, validate_credential_form};
use crate::protocol::{header_models, Header};
use crate::security::{client_id_from_public_key, fingerprint_of};
use crate::server_view::{kept_index, reconciled, row_ids, ShownModel};
use crate::octets::is_zero;
use crate::text::{
    decimal, decimal_text, joined, listed, lower_text, lowered, same_text, texts, trim, trimmed,
};
use vstd::prelude::*;

verus! {

/// The place that a credential is to be written to.
#[derive(Clone, Copy, Debug, PartialEq, Eq, Structural)]
pub enum OutputPlace {
    Free,
    /// The file of the settings.
    Config,
    Taken,
}

/// What is to be written after a credential was asked for.
pub enum Issue {
    Refused,
    /// Settings with other permissions for one client.
    Update { config: AppConfig, index: usize },
    /// A credential, and settings that know its client.
    New { config: AppConfig, bundle: CredentialBundle },
}

pub enum IssuedModel {
    Refused,
    Update { config: SettingsModel, index: usize },
    New { config: SettingsModel, bundle: BundleModel },
}

impl View for Issue {
    type V = IssuedModel;

    open spec fn view(&self) -> IssuedModel {
        match self {
            Issue::Refused => IssuedModel::Refused,
            Issue::Update { config, index } => IssuedModel::Update {
                config: config@,
                index: *index,
            },
            Issue::New { config, bundle } => IssuedModel::New {
                config: config@,
                bundle: bundle@,
            },
        }
    }
}

/// The hosts that are chosen.
pub open spec fn chosen_ids(rows: Seq<RowModel>, selected: Seq<bool>) -> Seq<Seq<char>>
    decreases rows.len(),
{
    if rows.len() == 0 {
        Seq::empty()
    } else {
        let front = chosen_ids(rows.drop_last(), selected);
        if rows.len() <= selected.len() && selected[rows.len() - 1] {
            front.push(rows.last().id)
        } else {
            front
        }
    }
}

/// One of the clients has this identifier, in whatever case.
pub open spec fn is_taken(clients: Seq<AllowedModel>, id: Seq<char>) -> bool {
    exists|i: int|
        0 <= i < clients.len() && lowered((#[trigger] clients[i]).client_id) == lowered(id)
}

impl SettingsModel {
    pub open spec fn with_clients(self, clients: Seq<AllowedModel>) -> SettingsModel {
        SettingsModel {
            security: SecurityModel { allowed_clients: clients, ..self.security },
            ..self
        }
    }

    /// The settings with a secret and a key pair for the server.
    pub open spec fn completed(self, secret: Seq<u8>, private: Seq<u8>) -> SettingsModel {
        SettingsModel {
            security: SecurityModel {
                shared_secret: self.secret(secret),
                server_static_private_key: self.identity(private).0,
                server_static_public_key: self.identity(private).1,
                ..self.security
            },
            ..self
        }
    }
}

impl DeskModel {
    /// The permissions of all clients are put right.
    pub open spec fn reconciled(self) -> DeskModel {
        let clients = reconciled(self.client_acl, row_ids(self.view.hosts));
        DeskModel {
            client_acl: clients,
            config: self.config.with_clients(clients),
            view: self.view.with_access(clients),
            ..self
        }
    }

    pub open spec fn chosen(self) -> Seq<Seq<char>> {
        chosen_ids(self.view.hosts, self.issue.selected)
    }

    /// The complaint about what was typed.
    pub open spec fn issue_form_fault(self) -> Option<Seq<char>> {
        credential_form_fault(
            trimmed(self.issue.label),
            trimmed(self.issue.output),
            self.chosen().len(),
        )
    }

    /// The complaint about a new credential with this key.
    pub open spec fn new_fault(self, public: Seq<u8>, place: OutputPlace) -> Option<Seq<char>> {
        let id = fingerprint_of(public);
        if key_read(key_text(public)) is Err {
            Some("客户端身份生成失败: "@ + key_read(key_text(public))->Err_0)
        } else if is_taken(self.client_acl, id) {
            Some("该客户端身份已经存在，请重新签发"@)
        } else if place == OutputPlace::Config {
            Some("凭据文件不能覆盖服务端配置"@)
        } else if place == OutputPlace::Taken {
            Some("凭据输出文件已存在，请更换文件名"@)
        } else {
            None
        }
    }

    /// The credential of a private key.
    pub open spec fn bundle(self, private: Seq<u8>) -> BundleModel {
        BundleModel {
            version: CREDENTIAL_VERSION,
            client_id: fingerprint_of(x25519_public(private)),
            device_label: trimmed(self.issue.label),
            shared_secret: self.config.security.shared_secret,
            static_private_key: pair_texts(private).0,
            static_public_key: pair_texts(private).1,
            pinned_server_static_key: self.config.security.server_static_public_key,
            custom_headers: self.config.security.custom_headers,
        }
    }

    /// The settings that know the client of a private key.
    pub open spec fn enrolled(self, private: Seq<u8>) -> SettingsModel {
        self.config.with_clients(
            self.config.security.allowed_clients.push(
                AllowedModel {
                    client_id: fingerprint_of(x25519_public(private)),
                    static_public_key: pair_texts(private).1,
                    allowed_hosts: self.chosen(),
                },
            ),
        )
    }

    /// A new credential, on a desk whose permissions are right.
    pub open spec fn newly_issued(
        self,
        place: OutputPlace,
        secret: Seq<u8>,
        private: Seq<u8>,
        client: Seq<u8>,
    ) -> (DeskModel, IssuedModel) {
        if self.client_acl.len() >= MAX_CLIENTS {
            (self.noted("客户端凭据最多允许 128 份"@), IssuedModel::Refused)
        } else if self.config.identity_fault() is Some {
            (
                self.noted("服务端身份无效: "@ + self.config.identity_fault()->0),
                IssuedModel::Refused,
            )
        } else {
            let desk = DeskModel { config: self.config.completed(secret, private), ..self };
            match desk.new_fault(x25519_public(client), place) {
                Some(text) => (desk.noted(text), IssuedModel::Refused),
                None => (
                    desk,
                    IssuedModel::New {
                        config: desk.enrolled(client),
                        bundle: desk.bundle(client),
                    },
                ),
            }
        }
    }

    /// What comes of asking for a credential.
    pub open spec fn issued(
        self,
        place: OutputPlace,
        secret: Seq<u8>,
        private: Seq<u8>,
        client: Seq<u8>,
    ) -> (DeskModel, IssuedModel) {
        let desk = self.reconciled();
        if desk.issue_form_fault() is Some {
            (desk.noted(desk.issue_form_fault()->0), IssuedModel::Refused)
        } else {
            match desk.issue.edit {
                Some(index) => {
                    if index >= desk.client_acl.len() {
                        (
                            DeskModel { screen: Screen::Credentials, ..desk }.noted(
                                "凭据选择已失效，请返回后重试"@,
                            ),
                            IssuedModel::Refused,
                        )
                    } else {
                        let clients = desk.config.security.allowed_clients;
                        (
                            desk,
                            IssuedModel::Update {
                                config: desk.config.with_clients(
                                    clients.update(
                                        index as int,
                                        AllowedModel {
                                            allowed_hosts: desk.chosen(),
                                            ..clients[index as int]
                                        },
                                    ),
                                ),
                                index,
                            },
                        )
                    }
                },
                None => desk.newly_issued(place, secret, private, client),
            }
        }
    }
}

#[verifier::loop_isolation(false)]
fn choose_hosts(rows: &Vec<HostRow>, selected: &Vec<bool>) -> (r: Vec<String>)
    ensures
        texts(r@) == chosen_ids(row_models(rows@), selected@),
{
    let ghost all = row_models(rows@);
    let mut out: Vec<String> = Vec::new();
    let mut i: usize = 0;
    assert(all.take(0) =~= Seq::<RowModel>::empty());
    assert(texts(out@) =~= Seq::<Seq<char>>::empty());
    while i < rows.len()
        invariant
            i <= rows@.len(),
            texts(out@) == chosen_ids(all.take(i as int), selected@),
        decreases rows@.len() - i,
    {
        assert(all.take(i + 1).drop_last() =~= all.take(i as int));
        assert(all.take(i + 1).last() == rows@[i as int]@);
        if i < selected.len() && selected[i] {
            let ghost before = texts(out@);
            out.push(rows[i].id.clone());
            assert(texts(out@) =~= before.push(all[i as int].id));
        }
        i += 1;
    }
    assert(all.take(i as int) =~= all);
    out
}

#[verifier::loop_isolation(false)]
fn taken(clients: &Vec<AllowedClient>, id: &str) -> (r: bool)
    ensures
        r == is_taken(allowed_models(clients@), id@),
{
    let folded: String = lower_text(id);
    let mut i: usize = 0;
    while i < clients.len()
        invariant
            i <= clients@.len(),
            forall|k: int|
                0 <= k < i ==> lowered((#[trigger] allowed_models(clients@)[k]).client_id)
                    != lowered(id@),
        decreases clients@.len() - i,
    {
        assert(allowed_models(clients@)[i as int] == clients@[i as int]@);
        if same_text(&lower_text(&clients[i].client_id), &folded) {
            return true;
        }
        i += 1;
    }
    false
}

impl ServerDesk {
    /// Puts the permissions of all clients right.
    fn reconcile(&mut self)
        requires
            permission_count(old(self).client_acl@) <= usize::MAX,
        ensures
            final(self)@ == old(self)@.reconciled(),
    {
        let removed: usize = self.view.reconcile_client_permissions(&mut self.client_acl);
        self.config.security.allowed_clients = copy_clients(&self.client_acl);
    }

    fn refuse(&mut self, text: &str) -> (r: Issue)
        ensures
            r@ == IssuedModel::Refused,
            final(self)@ == old(self)@.noted(text@),
    {
        self.note(text);
        Issue::Refused
    }

    /// Gives the client that is edited the chosen hosts.
    fn update_client(&mut self, index: usize, hosts: Vec<String>) -> (r: Issue)
        requires
            index < old(self).config.security.allowed_clients@.len(),
        ensures
            final(self)@ == old(self)@,
            ({
                let clients = old(self)@.config.security.allowed_clients;
                r@ == (IssuedModel::Update {
                    config: old(self)@.config.with_clients(
                        clients.update(
                            index as int,
                            AllowedModel { allowed_hosts: texts(hosts@), ..clients[index as int] },
                        ),
                    ),
                    index,
                })
            }),
    {
        let mut config: AppConfig = self.config.clone();
        let ghost clients = config@.security.allowed_clients;
        assert(clients.len() == config.security.allowed_clients@.len());
        assert(self@.config.security.allowed_clients.len()
            == self.config.security.allowed_clients@.len());
        assert(clients[index as int] == config.security.allowed_clients@[index as int]@);
        let client = AllowedClient {
            client_id: config.security.allowed_clients[index].client_id.clone(),
            static_public_key: config.security.allowed_clients[index].static_public_key.clone(),
            allowed_hosts: hosts,
        };
        let ghost model = client@;
        config.security.allowed_clients.set(index, client);
        assert(allowed_models(config.security.allowed_clients@) =~= clients.update(
            index as int,
            model,
        ));
        Issue::Update { config, index }
    }

    /// Completes the server's secret and key pair.
    fn complete(&mut self, secret: &[u8; 32], private: &[u8; 32]) -> (r: Option<String>)
        ensures
            match r {
                None => {
                    &&& old(self)@.config.identity_fault() is None
                    &&& final(self)@ == (DeskModel {
                        config: old(self)@.config.completed(secret@, private@),
                        ..old(self)@
                    })
                },
                Some(text) => {
                    &&& old(self)@.config.identity_fault() == Some(text@)
                    &&& final(self)@ == old(self)@
                },
            },
    {
        match self.config.ensure_server_identity_with(private) {
            Ok(()) => {
                self.config.ensure_secret_with(secret);
                None
            },
            Err(ConfigError::Invalid(text)) => Some(text),
        }
    }

    /// Makes a credential and the settings that know its client.
    fn make(&self, id: String, pair: (String, String), hosts: Vec<String>) -> (r: Issue)
        ensures
            r@ == (IssuedModel::New {
                config: self@.config.with_clients(
                    self@.config.security.allowed_clients.push(
                        AllowedModel {
                            client_id: id@,
                            static_public_key: pair.1@,
                            allowed_hosts: texts(hosts@),
                        },
                    ),
                ),
                bundle: BundleModel {
                    version: CREDENTIAL_VERSION,
                    client_id: id@,
                    device_label: trimmed(self@.issue.label),
                    shared_secret: self@.config.security.shared_secret,
                    static_private_key: pair.0@,
                    static_public_key: pair.1@,
                    pinned_server_static_key: self@.config.security.server_static_public_key,
                    custom_headers: self@.config.security.custom_headers,
                },
            }),
    {
        let mut config: AppConfig = self.config.clone();
        let ghost clients = config@.security.allowed_clients;
        let client = AllowedClient {
            client_id: id.clone(),
            static_public_key: pair.1.clone(),
            allowed_hosts: hosts,
        };
        let ghost model = client@;
        config.security.allowed_clients.push(client);
        assert(allowed_models(config.security.allowed_clients@) =~= clients.push(model));
        let headers: Vec<Header> = self.config.security.custom_headers.clone();
        assert(headers@ =~= self.config.security.custom_headers@);
        Issue::New {
            config,
            bundle: CredentialBundle {
                version: CREDENTIAL_VERSION,
                client_id: id,
                device_label: trim(&self.issue.label),
                shared_secret: self.config.security.shared_secret.clone(),
                static_private_key: pair.0,
                static_public_key: pair.1,
                pinned_server_static_key: self.config.security.server_static_public_key.clone(),
                custom_headers: headers,
            },
        }
    }

    fn issue_new(
        &mut self,
        hosts: Vec<String>,
        place: OutputPlace,
        secret: &[u8; 32],
        private: &[u8; 32],
        client: &[u8; 32],
    ) -> (r: Issue)
        requires
            texts(hosts@) == old(self)@.chosen(),
        ensures
            (final(self)@, r@) == old(self)@.newly_issued(place, secret@, private@, client@),
    {
        assert(self@.client_acl.len() == self.client_acl@.len());
        if self.client_acl.len() >= MAX_CLIENTS {
            return self.refuse("客户端凭据最多允许 128 份");
        }
        if let Some(text) = self.complete(secret, private) {
            return self.refuse(&joined("服务端身份无效: ", &text));
        }
        let pair: (String, String) = identity_pair(client);
        let public: [u8; 32] = match decode_key(&pair.1) {
            Ok(public) => public,
            Err(ConfigError::Invalid(text)) => {
                return self.refuse(&joined("客户端身份生成失败: ", &text));
            },
        };
        proof {
            written_key_is_read(x25519_public(client@), public@);
        }
        let id: String = client_id_from_public_key(&public);
        if taken(&self.client_acl, &id) {
            return self.refuse("该客户端身份已经存在，请重新签发");
        }
        match place {
            OutputPlace::Config => self.refuse("凭据文件不能覆盖服务端配置"),
            OutputPlace::Taken => self.refuse("凭据输出文件已存在，请更换文件名"),
            OutputPlace::Free => self.make(id, pair, hosts),
        }
    }

    /// Decides what comes of asking for a credential, with the secrets that are to
    /// be used where new ones are needed.
    pub fn issue_with(
        &mut self,
        place: OutputPlace,
        secret: &[u8; 32],
        private: &[u8; 32],
        client: &[u8; 32],
    ) -> (r: Issue)
        requires
            permission_count(old(self).client_acl@) <= usize::MAX,
        ensures
            (final(self)@, r@) == old(self)@.issued(place, secret@, private@, client@),
    {
        self.reconcile();
        let label: String = trim(&self.issue.label);
        let output: String = trim(&self.issue.output);
        let hosts: Vec<String> = choose_hosts(&self.view.hosts, &self.issue.selected);
        assert(texts(hosts@).len() == hosts@.len());
        if let Err(text) = validate_credential_form(&label, &output, hosts.len()) {
            return self.refuse(&text);
        }
        match self.issue.edit {
            Some(index) => {
                assert(self@.client_acl.len() == self.client_acl@.len());
                assert(self@.config.security.allowed_clients.len()
                    == self.config.security.allowed_clients@.len());
                if index >= self.client_acl.len() {
                    self.screen = Screen::Credentials;
                    return self.refuse("凭据选择已失效，请返回后重试");
                }
                self.update_client(index, hosts)
            },
            None => self.issue_new(hosts, place, secret, private, client),
        }
    }

    /// Decides what comes of asking for a credential. Secrets that are needed are
    /// random.
    pub fn issue_credential(&mut self, place: OutputPlace) -> (r: Issue)
        requires
            permission_count(old(self).client_acl@) <= usize::MAX,
        ensures
            exists|secret: [u8; 32], private: [u8; 32], client: [u8; 32]|
                (final(self)@, r@) == old(self)@.issued(
                    place,
                    #[trigger] secret@,
                    #[trigger] private@,
                    #[trigger] client@,
                ),
    {
        let secret: [u8; 32] = random_32();
        let private: [u8; 32] = random_32();
        let client: [u8; 32] = random_32();
        self.issue_with(place, &secret, &private, &client)
    }
}

/// A key that was read from its own text is the key.
proof fn written_key_is_read(key: Seq<u8>, read: Seq<u8>)
    requires
        key_read(key_text(key)) == Ok::<Seq<u8>, Seq<char>>(read),
    ensures
        read == key,
{
    reveal_strlit("hex:");
    crate::crypto::hex_text_reads_back(key);
    assert(key_text(key).skip(4) =~= crate::crypto::hex_text(key));
}

impl DeskModel {
    /// The page of the credentials, with a notice.
    pub open spec fn back_to_credentials(self, index: usize, text: Seq<char>) -> DeskModel {
        DeskModel {
            view: ShownModel {
                credential_index: kept_index(index, self.view.clients.len()),
                ..self.view
            },
            screen: Screen::Credentials,
            ..self
        }.noted(text)
    }

    /// The page on which the permissions of the client that is pointed at are
    /// edited.
    pub open spec fn editing(self) -> DeskModel {
        let index = self.view.credential_index;
        if index >= self.client_acl.len() {
            self.noted("没有可编辑的客户端凭据"@)
        } else {
            let allowed = self.client_acl[index as int].allowed_hosts.map_values(
                |name: Seq<char>| host_id_of(name),
            );
            let label = self.issue_label(Some(index));
            DeskModel {
                issue: FormModel {
                    label,
                    output: label + ".credential.toml"@,
                    selected: self.view.hosts.map_values(|row: RowModel| allowed.contains(row.id)),
                    edit: Some(index),
                },
                screen: Screen::CredentialIssue,
                ..self
            }
        }
    }

    /// The label that is proposed: that of the client, or for a new one its
    /// number.
    pub open spec fn issue_label(self, edit: Option<usize>) -> Seq<char> {
        match edit {
            Some(index) if index < self.view.clients.len() => self.view.clients[index as int].label,
            _ => "portable-client-"@ + decimal((self.view.clients.len() + 1) as nat),
        }
    }

    /// The page on which a new credential is issued, with all hosts chosen.
    pub open spec fn issuing(self) -> DeskModel {
        let label = self.issue_label(None);
        DeskModel {
            issue: FormModel {
                label,
                output: label + ".credential.toml"@,
                selected: Seq::new(self.view.hosts.len(), |i: int| true),
                edit: None,
            },
            screen: Screen::CredentialIssue,
            ..self
        }
    }
}

/// What came of writing a credential and the settings that know its client.
pub enum IssueOutcome {
    Issued,
    /// The credential could not be written.
    NoCredential(String),
    /// The settings could not be written.
    NoConfig(String),
}

#[verifier::loop_isolation(false)]
fn flags_of(rows: &Vec<HostRow>, allowed: &Vec<String>) -> (r: Vec<bool>)
    ensures
        r@ == row_models(rows@).map_values(
            |row: RowModel|
                texts(allowed@).map_values(|name: Seq<char>| host_id_of(name)).contains(row.id),
        ),
{
    let ghost ids = texts(allowed@).map_values(|name: Seq<char>| host_id_of(name));
    let mut normal: Vec<String> = Vec::new();
    let mut i: usize = 0;
    while i < allowed.len()
        invariant
            i == normal@.len() <= allowed@.len(),
            forall|k: int| 0 <= k < i ==> (#[trigger] normal@[k])@ == host_id_of(allowed@[k]@),
        decreases allowed@.len() - i,
    {
        normal.push(lower_text(&trim(&allowed[i])));
        i += 1;
    }
    assert(texts(normal@) =~= ids);
    let mut out: Vec<bool> = Vec::new();
    let mut j: usize = 0;
    while j < rows.len()
        invariant
            j == out@.len() <= rows@.len(),
            forall|k: int| 0 <= k < j ==> #[trigger] out@[k] == ids.contains(rows@[k].id@),
        decreases rows@.len() - j,
    {
        out.push(listed(&normal, &rows[j].id));
        j += 1;
    }
    assert(out@ =~= row_models(rows@).map_values(|row: RowModel| ids.contains(row.id)));
    out
}

impl ServerDesk {
    fn propose_label(&self, edit: Option<usize>) -> (r: String)
        requires
            self.view.clients@.len() < u64::MAX,
        ensures
            r@ == self@.issue_label(edit),
    {
        assert(self@.view.clients.len() == self.view.clients@.len());
        if let Some(index) = edit {
            if index < self.view.clients.len() {
                assert(self@.view.clients[index as int] == self.view.clients@[index as int]@);
                return self.view.clients[index].label.clone();
            }
        }
        joined("portable-client-", &decimal_text(self.view.clients.len() as u64 + 1))
    }

    /// Opens the page on which a new credential is issued.
    pub fn open_credential_issue(&mut self)
        requires
            old(self).view.clients@.len() < u64::MAX,
        ensures
            final(self)@ == old(self)@.issuing(),
    {
        let label: String = self.propose_label(None);
        let output: String = joined(&label, ".credential.toml");
        let selected: Vec<bool> = vec![true; self.view.hosts.len()];
        assert(self@.view.hosts.len() == self.view.hosts@.len());
        assert(selected@ =~= Seq::new(self@.view.hosts.len(), |i: int| true));
        self.issue = IssueForm { label, output, selected, edit: None };
        self.screen = Screen::CredentialIssue;
    }

    /// Opens the page on which the permissions of a client are edited.
    pub fn open_credential_edit(&mut self)
        requires
            old(self).view.clients@.len() < u64::MAX,
        ensures
            final(self)@ == old(self)@.editing(),
    {
        let index: usize = self.view.credential_index;
        assert(self@.client_acl.len() == self.client_acl@.len());
        if index >= self.client_acl.len() {
            self.note("没有可编辑的客户端凭据");
            return;
        }
        assert(self@.client_acl[index as int] == self.client_acl@[index as int]@);
        let label: String = self.propose_label(Some(index));
        let output: String = joined(&label, ".credential.toml");
        let selected: Vec<bool> = flags_of(
            &self.view.hosts,
            &self.client_acl[index].allowed_hosts,
        );
        self.issue = IssueForm { label, output, selected, edit: Some(index) };
        self.screen = Screen::CredentialIssue;
    }

    fn return_to_credentials(&mut self, index: usize, text: &str)
        ensures
            final(self)@ == old(self)@.back_to_credentials(index, text@),
            final(self).config == old(self).config,
    {
        assert(self@.view.clients.len() == self.view.clients@.len());
        self.view.credential_index = crate::server_view::keep_index(
            index,
            self.view.clients.len(),
        );
        self.screen = Screen::Credentials;
        self.note(text);
    }

    /// Takes up what came of writing other permissions.
    pub fn finish_update(
        &mut self,
        config: AppConfig,
        index: usize,
        outcome: Result<(), String>,
        path: &str,
    )
        ensures
            final(self)@ == match outcome {
                Ok(()) => old(self)@.with_config(config@, path@).back_to_credentials(
                    index,
                    "客户端主机权限已更新，便携私钥保持不变"@,
                ),
                Err(text) => old(self)@.noted("无法保存客户端权限: "@ + text@),
            },
    {
        match outcome {
            Ok(()) => {
                self.install(config, path);
                self.return_to_credentials(
                    index,
                    "客户端主机权限已更新，便携私钥保持不变",
                );
            },
            Err(text) => {
                self.note(&joined("无法保存客户端权限: ", &text));
            },
        }
    }

    /// Takes up what came of writing a credential. The last of the clients is then
    /// pointed at.
    pub fn finish_issue(&mut self, config: AppConfig, outcome: IssueOutcome, output: &str, path: &str)
        ensures
            final(self)@ == match outcome {
                IssueOutcome::Issued => old(self)@.with_config(config@, path@).back_to_credentials(
                    usize::MAX,
                    "凭据已签发: "@ + output@,
                ),
                IssueOutcome::NoCredential(text) => old(self)@.noted("无法写入凭据: "@ + text@),
                IssueOutcome::NoConfig(text) => old(self)@.noted("无法保存服务端 ACL: "@ + text@),
            },
    {
        match outcome {
            IssueOutcome::Issued => {
                self.install(config, path);
                self.return_to_credentials(usize::MAX, &joined("凭据已签发: ", output));
            },
            IssueOutcome::NoCredential(text) => {
                self.note(&joined("无法写入凭据: ", &text));
            },
            IssueOutcome::NoConfig(text) => {
                self.note(&joined("无法保存服务端 ACL: ", &text));
            },
        }
    }
}

/// An issued credential is whole and consistent wherever the settings that know
/// its client are valid. Those enrol exactly its client besides the ones before,
/// under its identifier and its key, with the hosts that were chosen.
pub proof fn an_issued_credential_is_valid(
    desk: DeskModel,
    place: OutputPlace,
    secret: [u8; 32],
    private: [u8; 32],
    client: [u8; 32],
    config: AppConfig,
    bundle: CredentialBundle,
)
    requires
        desk.issued(place, secret@, private@, client@).1 == (IssuedModel::New {
            config: config@,
            bundle: bundle@,
        }),
        config.fault() is None,
        !is_zero(client@),
    ensures
        bundle.is_valid(),
        config@.security.allowed_clients == desk.reconciled().client_acl.push(
            AllowedModel {
                client_id: bundle.client_id@,
                static_public_key: bundle.static_public_key@,
                allowed_hosts: desk.chosen(),
            },
        ),
        bundle.pinned_server_static_key@ == config.security.server_static_public_key@,
        bundle.shared_secret@ == config.security.shared_secret@,
{
    let after = desk.issued(place, secret@, private@, client@).0;
    let public = x25519_public(client@);
    let clients = config.security.allowed_clients@;
    let models = allowed_models(clients);
    assert(models.len() == clients.len());
    let last = clients.len() - 1;
    assert(models.last() == clients[last]@);
    crate::config::clients_accepted(clients, crate::config::host_ids_of(config.hosts@), 0, last);
    written_key_is_read(public, key_read(key_text(public))->Ok_0);
    crate::config::key_text_reads_back(client@);
    let hash = crate::crypto::sha256(public);
    assert(lowered(fingerprint_of(public)).len() == fingerprint_of(public).len());
    assert(fingerprint_of(public).len() == 2 * hash.len());
    crate::security::hex_text_is_an_id(hash);
    reveal_strlit("hex:");
    assert(header_models(bundle.custom_headers@) == header_models(config.security.custom_headers@));
    assert(key_text(client@).len() > 0 && key_text(public).len() > 0);
    let pinned = config.security.server_static_public_key@;
    assert(pinned.len() > 0);
    assert(crate::config::optional_key_fault(pinned) is None);
    crate::text::trimmed_is_stable(desk.issue.label);
}

} // verus!
