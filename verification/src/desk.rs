//! The state of the program that a server is run from: its settings, what is
//! shown of them, and the server itself.

use crate::client_view::Screen;
use crate::config::{allowed_models, copy_clients, AllowedClient, AllowedModel, AppConfig, SettingsModel};
use crate::credential::text_of_option;
use crate::logging::Level;
use crate::server_view::{
    client_rows, ClientRow, ClientRowModel, Draft, ListenForm, ListenMode, ServerView,
    ShownModel, DEFAULT_CUSTOM_BIND, DEFAULT_V4_BIND, DEFAULT_V6_BIND,
};
use crate::text::{
    decimal, decimal_text, joined, lower_text, lowered, same_text, starts_with, text_from, text_of,
    chars_of,
};
use vstd::prelude::*;

verus! {

/// The log lines that are kept on the page.
pub const LOG_LIMIT: usize = 200;

#[derive(Clone, Copy, Debug, PartialEq, Eq, Structural)]
pub enum ServerPhase {
    Stopped,
    Starting,
    Running,
    Failed,
}

/// A question that stands before the page.
#[derive(Clone, Copy, Debug, PartialEq, Eq, Structural)]
pub enum Modal {
    Help,
    DeleteHost,
    DeleteHeader,
    RevokeCredential,
    StopServer,
    Exit,
}

/// A log line on the page.
pub struct LogEntry {
    pub clock: String,
    pub level: Level,
    pub message: String,
}

pub struct LogModel {
    pub clock: Seq<char>,
    pub level: Level,
    pub message: Seq<char>,
}

impl View for LogEntry {
    type V = LogModel;

    open spec fn view(&self) -> LogModel {
        LogModel { clock: self.clock@, level: self.level, message: self.message@ }
    }
}

pub open spec fn log_models(logs: Seq<LogEntry>) -> Seq<LogModel> {
    logs.map_values(|entry: LogEntry| entry@)
}

/// A credential that is to be issued, or whose permissions are edited.
pub struct IssueForm {
    pub label: String,
    pub output: String,
    /// For each host, whether the client may use it.
    pub selected: Vec<bool>,
    /// The client that is edited.
    pub edit: Option<usize>,
}

pub struct FormModel {
    pub label: Seq<char>,
    pub output: Seq<char>,
    pub selected: Seq<bool>,
    pub edit: Option<usize>,
}

impl View for IssueForm {
    type V = FormModel;

    open spec fn view(&self) -> FormModel {
        FormModel {
            label: self.label@,
            output: self.output@,
            selected: self.selected@,
            edit: self.edit,
        }
    }
}

/// The state of the program.
pub struct ServerDesk {
    pub screen: Screen,
    pub modal: Option<Modal>,
    pub config: AppConfig,
    pub client_acl: Vec<AllowedClient>,
    pub view: ServerView,
    pub config_status: String,
    pub notice: Option<String>,
    pub issue: IssueForm,
    pub phase: ServerPhase,
    pub started: bool,
    pub active_connections: usize,
    pub logs: Vec<LogEntry>,
}

pub struct DeskModel {
    pub screen: Screen,
    pub modal: Option<Modal>,
    pub config: SettingsModel,
    pub client_acl: Seq<AllowedModel>,
    pub view: ShownModel,
    pub config_status: Seq<char>,
    pub notice: Option<Seq<char>>,
    pub issue: FormModel,
    pub phase: ServerPhase,
    pub started: bool,
    pub active_connections: usize,
    pub logs: Seq<LogModel>,
}

impl View for ServerDesk {
    type V = DeskModel;

    open spec fn view(&self) -> DeskModel {
        DeskModel {
            screen: self.screen,
            modal: self.modal,
            config: self.config@,
            client_acl: allowed_models(self.client_acl@),
            view: self.view@,
            config_status: self.config_status@,
            notice: text_of_option(self.notice),
            issue: self.issue@,
            phase: self.phase,
            started: self.started,
            active_connections: self.active_connections,
            logs: log_models(self.logs@),
        }
    }
}

/// What came of writing the settings.
pub enum SaveOutcome {
    Saved,
    /// The file is as it was.
    Failed(String),
    /// The file holds the new settings, but they may not outlast a crash.
    NotDurable(String),
}

/// What is told after the settings were saved.
pub open spec fn saved_text(removed: nat) -> Seq<char> {
    if removed == 0 {
        "配置已保存"@
    } else {
        "配置已保存，已移除 "@ + decimal(removed) + " 条失效的主机授权"@
    }
}

impl DeskModel {
    pub open spec fn noted(self, text: Seq<char>) -> DeskModel {
        DeskModel { notice: Some(text), ..self }
    }

    /// Settings take the place of those before, with their clients, and are shown.
    pub open spec fn with_config(self, config: SettingsModel, path: Seq<char>) -> DeskModel {
        DeskModel {
            config,
            client_acl: config.security.allowed_clients,
            view: self.view.loaded(config, config.security.allowed_clients, path),
            ..self
        }
    }

    /// The view could not be turned into settings: what was typed stays to be
    /// corrected, and the clients are those that have access.
    pub open spec fn unsaved(self, complaint: Seq<char>) -> DeskModel {
        DeskModel {
            client_acl: self.config.security.allowed_clients,
            view: ShownModel {
                clients: self.view.loaded(
                    self.config,
                    self.config.security.allowed_clients,
                    Seq::empty(),
                ).clients,
                credential_index: self.view.loaded(
                    self.config,
                    self.config.security.allowed_clients,
                    Seq::empty(),
                ).credential_index,
                ..self.view
            },
            config_status: "保存失败"@,
            ..self
        }.noted("保存失败: "@ + complaint)
    }

    /// The settings were written.
    pub open spec fn saved(self, config: SettingsModel, removed: nat, path: Seq<char>) -> DeskModel {
        let clients = config.security.allowed_clients;
        DeskModel {
            config,
            client_acl: clients,
            view: ShownModel {
                server_public_key: crate::server_view::bare_key(
                    config.security.server_static_public_key,
                ),
                deployment_summary: "配置已保存  "@ + path,
                ..self.view.with_access(clients)
            },
            config_status: "已保存"@,
            ..self
        }.noted(saved_text(removed))
    }

    /// The settings were not written, or perhaps not for good: what is shown is
    /// what the file holds.
    pub open spec fn save_failed(
        self,
        config: SettingsModel,
        complaint: Seq<char>,
        path: Seq<char>,
    ) -> DeskModel {
        DeskModel {
            config_status: "保存失败"@,
            ..self.with_config(config, path)
        }.noted("保存失败: "@ + complaint)
    }
}

fn no_view() -> (r: ServerView)
    ensures
        r@ == empty_view(),
{
    let view = ServerView {
        hosts: Vec::new(),
        clients: Vec::new(),
        headers: Vec::new(),
        host_index: 0,
        credential_index: 0,
        header_index: 0,
        listen: ListenForm {
            mode: ListenMode::DualStack,
            custom: DEFAULT_CUSTOM_BIND.to_owned(),
            v4: DEFAULT_V4_BIND.to_owned(),
            v6: DEFAULT_V6_BIND.to_owned(),
        },
        server_port: String::new(),
        clock_skew: String::new(),
        address: String::new(),
        port: String::new(),
        server_public_key: String::new(),
        deployment_summary: String::new(),
    };
    assert(view@.hosts =~= Seq::empty());
    assert(view@.clients =~= Seq::empty());
    assert(view@.headers =~= Seq::empty());
    assert(view@.server_port =~= Seq::empty());
    assert(view@.clock_skew =~= Seq::empty());
    assert(view@.address =~= Seq::empty());
    assert(view@.port =~= Seq::empty());
    assert(view@.server_public_key =~= Seq::empty());
    assert(view@.deployment_summary =~= Seq::empty());
    view
}

/// A view with nothing in it.
pub open spec fn empty_view() -> ShownModel {
    ShownModel {
        hosts: Seq::empty(),
        clients: Seq::empty(),
        headers: Seq::empty(),
        host_index: 0,
        credential_index: 0,
        header_index: 0,
        listen: crate::server_view::ListenModel {
            mode: ListenMode::DualStack,
            custom: DEFAULT_CUSTOM_BIND@,
            v4: DEFAULT_V4_BIND@,
            v6: DEFAULT_V6_BIND@,
        },
        server_port: Seq::empty(),
        clock_skew: Seq::empty(),
        address: Seq::empty(),
        port: Seq::empty(),
        server_public_key: Seq::empty(),
        deployment_summary: Seq::empty(),
    }
}

impl ServerDesk {
    /// The state at the start. The settings are those of the file, or where there
    /// is none, fresh ones.
    pub fn new(config: AppConfig, initialized: bool, path: &str) -> (r: ServerDesk)
        ensures
            ({
                let clients = config@.security.allowed_clients;
                let view = empty_view().loaded(config@, clients, path@);
                r@ == (DeskModel {
                    screen: Screen::Landing,
                    modal: None,
                    config: config@,
                    client_acl: clients,
                    view: if initialized {
                        view
                    } else {
                        view.uninitialized()
                    },
                    config_status: if initialized {
                        "已载入"@
                    } else {
                        "未初始化"@
                    },
                    notice: None,
                    issue: FormModel {
                        label: Seq::empty(),
                        output: Seq::empty(),
                        selected: Seq::empty(),
                        edit: None,
                    },
                    phase: ServerPhase::Stopped,
                    started: false,
                    active_connections: 0,
                    logs: Seq::empty(),
                })
            }),
    {
        let client_acl: Vec<AllowedClient> = copy_clients(&config.security.allowed_clients);
        let mut view: ServerView = no_view();
        view.load_view_from_config(&config, &client_acl, path);
        if !initialized {
            view.mark_uninitialized_view();
        }
        let desk = ServerDesk {
            screen: Screen::Landing,
            modal: None,
            config,
            client_acl,
            view,
            config_status: if initialized {
                "已载入".to_owned()
            } else {
                "未初始化".to_owned()
            },
            notice: None,
            issue: IssueForm {
                label: String::new(),
                output: String::new(),
                selected: Vec::new(),
                edit: None,
            },
            phase: ServerPhase::Stopped,
            started: false,
            active_connections: 0,
            logs: Vec::new(),
        };
        assert(desk@.issue.label =~= Seq::empty());
        assert(desk@.issue.output =~= Seq::empty());
        assert(desk@.logs =~= Seq::empty());
        desk
    }

    pub(crate) fn note(&mut self, text: &str)
        ensures
            final(self)@ == old(self)@.noted(text@),
            final(self).config == old(self).config,
            final(self).client_acl == old(self).client_acl,
    {
        self.notice = Some(text.to_owned());
    }

    pub(crate) fn install(&mut self, config: AppConfig, path: &str)
        ensures
            final(self)@ == old(self)@.with_config(config@, path@),
            final(self).config == config,
    {
        self.client_acl = copy_clients(&config.security.allowed_clients);
        self.view.load_view_from_config(&config, &self.client_acl, path);
        self.config = config;
    }

    /// Shows why the view cannot be saved.
    pub fn refuse_save(&mut self, complaint: &str)
        ensures
            final(self)@ == old(self)@.unsaved(complaint@),
            final(self).config == old(self).config,
    {
        let index: usize = self.view.credential_index;
        let mut shown: ServerView = no_view();
        shown.credential_index = index;
        shown.load_view_from_config(&self.config, &self.config.security.allowed_clients, "");
        self.client_acl = copy_clients(&self.config.security.allowed_clients);
        self.view.clients = shown.clients;
        self.view.credential_index = shown.credential_index;
        self.config_status = "保存失败".to_owned();
        self.note(&joined("保存失败: ", complaint));
    }

    /// Takes up what came of writing the settings. The settings of the program are
    /// those that the file holds.
    pub fn finish_server_save(&mut self, draft: Draft, outcome: SaveOutcome, path: &str) -> (r: Result<
        (),
        String,
    >)
        ensures
            match outcome {
                SaveOutcome::Saved => {
                    &&& r is Ok
                    &&& final(self)@ == old(self)@.saved(
                        draft.config@,
                        draft.removed as nat,
                        path@,
                    )
                    &&& final(self).config == draft.config
                },
                SaveOutcome::Failed(text) => {
                    &&& r == Err::<(), String>(text)
                    &&& final(self)@ == old(self)@.save_failed(old(self)@.config, text@, path@)
                },
                SaveOutcome::NotDurable(text) => {
                    &&& r == Err::<(), String>(text)
                    &&& final(self)@ == old(self)@.save_failed(draft.config@, text@, path@)
                    &&& final(self).config == draft.config
                },
            },
    {
        match outcome {
            SaveOutcome::Saved => {
                self.client_acl = copy_clients(&draft.config.security.allowed_clients);
                self.view.show_access(&self.client_acl);
                self.view.server_public_key = crate::server_view::strip_key(
                    &draft.config.security.server_static_public_key,
                );
                self.view.deployment_summary = joined("配置已保存  ", path);
                self.config = draft.config;
                self.config_status = "已保存".to_owned();
                if draft.removed == 0 {
                    self.note("配置已保存");
                } else {
                    let mut text: String = joined(
                        "配置已保存，已移除 ",
                        &decimal_text(draft.removed as u64),
                    );
                    text.append(" 条失效的主机授权");
                    self.note(&text);
                }
                Ok(())
            },
            SaveOutcome::Failed(text) => {
                let config: AppConfig = self.config.clone();
                self.install(config, path);
                self.config_status = "保存失败".to_owned();
                self.note(&joined("保存失败: ", &text));
                Err(text)
            },
            SaveOutcome::NotDurable(text) => {
                self.install(draft.config, path);
                self.config_status = "保存失败".to_owned();
                self.note(&joined("保存失败: ", &text));
                Err(text)
            },
        }
    }
}

/// One of the rows bears the name of the client, in whatever case.
pub open spec fn is_shown(client: AllowedModel, rows: Seq<ClientRowModel>) -> bool {
    exists|i: int|
        0 <= i < rows.len() && lowered((#[trigger] rows[i]).label) == lowered(client.client_id)
}

/// The clients that are still shown.
pub open spec fn shown_clients(clients: Seq<AllowedModel>, rows: Seq<ClientRowModel>) -> Seq<
    AllowedModel,
>
    decreases clients.len(),
{
    if clients.len() == 0 {
        clients
    } else {
        let front = shown_clients(clients.drop_last(), rows);
        if is_shown(clients.last(), rows) {
            front.push(clients.last())
        } else {
            front
        }
    }
}

#[verifier::loop_isolation(false)]
fn row_listed(rows: &Vec<ClientRow>, client: &AllowedClient) -> (r: bool)
    ensures
        r == is_shown(client@, client_rows(rows@)),
{
    let folded: String = lower_text(&client.client_id);
    let mut i: usize = 0;
    while i < rows.len()
        invariant
            i <= rows@.len(),
            forall|k: int|
                0 <= k < i ==> lowered((#[trigger] client_rows(rows@)[k]).label) != lowered(
                    client@.client_id,
                ),
        decreases rows@.len() - i,
    {
        assert(client_rows(rows@)[i as int] == rows@[i as int]@);
        if same_text(&lower_text(&rows[i].label), &folded) {
            return true;
        }
        i += 1;
    }
    false
}

/// What a page change asks to be done.
#[derive(Clone, Copy, Debug, PartialEq, Eq, Structural)]
pub struct Change {
    /// A client was revoked on the page.
    pub revoked: bool,
    /// The settings are to be saved.
    pub saves: bool,
}

/// The question was answered on this page.
pub open spec fn answered(before: Option<Modal>, after: Option<Modal>, modal: Modal) -> bool {
    before == Some(modal) && after is None
}

/// What is to be done after a key has changed the page.
pub open spec fn change_of(
    before_screen: Screen,
    before_modal: Option<Modal>,
    screen: Screen,
    modal: Option<Modal>,
    quit: bool,
) -> Change {
    let revoked = answered(before_modal, modal, Modal::RevokeCredential) && screen
        == Screen::Credentials;
    let edited = (before_screen == Screen::HostEditor && screen == Screen::ServerHome) || (
    before_screen == Screen::HeaderEditor && screen == Screen::ServerSettings) || (before_screen
        == Screen::ServerSettings && screen == Screen::ServerHome) || (answered(
        before_modal,
        modal,
        Modal::DeleteHost,
    ) && screen == Screen::ServerHome);
    Change {
        revoked,
        saves: revoked || edited || (screen == Screen::SaveExit && (before_screen
            != Screen::SaveExit || quit)),
    }
}

impl ServerDesk {
    /// Decides what is to be done after a key has changed the page, and takes the
    /// revoked clients from the list.
    #[verifier::loop_isolation(false)]
    pub fn persist_after_ui_change(
        &mut self,
        before_screen: Screen,
        before_modal: Option<Modal>,
        quit: bool,
    ) -> (r: bool)
        ensures
            ({
                let change = change_of(
                    before_screen,
                    before_modal,
                    old(self).screen,
                    old(self).modal,
                    quit,
                );
                &&& r == change.saves
                &&& final(self).config == old(self).config
                &&& final(self)@ == if change.revoked {
                    DeskModel {
                        client_acl: shown_clients(old(self)@.client_acl, old(self)@.view.clients),
                        ..old(self)@
                    }
                } else {
                    old(self)@
                }
            }),
    {
        let screen: Screen = self.screen;
        let answered_revoke: bool = before_modal == Some(Modal::RevokeCredential)
            && self.modal.is_none();
        let answered_delete: bool = before_modal == Some(Modal::DeleteHost)
            && self.modal.is_none();
        let revoked: bool = answered_revoke && screen == Screen::Credentials;
        let edited: bool = (before_screen == Screen::HostEditor && screen == Screen::ServerHome) || (
        before_screen == Screen::HeaderEditor && screen == Screen::ServerSettings) || (before_screen
            == Screen::ServerSettings && screen == Screen::ServerHome) || (answered_delete && screen
            == Screen::ServerHome);
        if revoked {
            let ghost all = allowed_models(self.client_acl@);
            let ghost rows = client_rows(self.view.clients@);
            let mut kept: Vec<AllowedClient> = Vec::new();
            let mut i: usize = 0;
            assert(all.take(0) =~= Seq::<AllowedModel>::empty());
            assert(allowed_models(kept@) =~= Seq::<AllowedModel>::empty());
            while i < self.client_acl.len()
                invariant
                    i <= self.client_acl@.len(),
                    allowed_models(kept@) == shown_clients(all.take(i as int), rows),
                decreases self.client_acl@.len() - i,
            {
                assert(all.take(i + 1).drop_last() =~= all.take(i as int));
                assert(all.take(i + 1).last() == self.client_acl@[i as int]@);
                if row_listed(&self.view.clients, &self.client_acl[i]) {
                    let ghost before = allowed_models(kept@);
                    kept.push(self.client_acl[i].clone());
                    assert(allowed_models(kept@) =~= before.push(all[i as int]));
                }
                i += 1;
            }
            assert(all.take(i as int) =~= all);
            self.client_acl = kept;
        }
        revoked || edited || (screen == Screen::SaveExit && (before_screen != Screen::SaveExit
            || quit))
    }
}

/// The level that a log line names, if it does, and its text.
pub open spec fn entry_of(line: Seq<char>) -> (Level, Seq<char>) {
    match line.index_of_first(' ') {
        None => (Level::Info, line),
        Some(at) => {
            let word = line.take(at);
            let level = if word == "WARN"@ {
                Level::Warn
            } else if word == "ERROR"@ {
                Level::Error
            } else if word == "FATAL"@ {
                Level::Fatal
            } else {
                Level::Info
            };
            (level, line.skip(at + 1))
        },
    }
}

/// A line that says that the server is gone.
pub open spec fn tells_failure(level: Level, text: Seq<char>) -> bool {
    level == Level::Fatal || "listener bind failed"@.is_prefix_of(text)
}

/// The last of the lines, as many as are kept.
pub open spec fn kept_logs(logs: Seq<LogModel>) -> Seq<LogModel> {
    if logs.len() > LOG_LIMIT {
        logs.skip(logs.len() - LOG_LIMIT)
    } else {
        logs
    }
}

impl DeskModel {
    pub open spec fn logged(self, line: Seq<char>, clock: Seq<char>) -> DeskModel {
        let (level, message) = entry_of(line);
        DeskModel {
            phase: if tells_failure(level, message) {
                ServerPhase::Failed
            } else {
                self.phase
            },
            logs: kept_logs(self.logs.push(LogModel { clock, level, message })),
            ..self
        }
    }

    /// The state after a look at the server: whether it listens, and whether it
    /// has come to its end.
    pub open spec fn refreshed(self, listening: bool, finished: bool) -> DeskModel {
        let phase = if self.started && listening {
            ServerPhase::Running
        } else {
            self.phase
        };
        if !finished {
            DeskModel { phase, ..self }
        } else {
            DeskModel {
                started: false,
                active_connections: 0,
                phase: if phase == ServerPhase::Stopped {
                    ServerPhase::Stopped
                } else {
                    ServerPhase::Failed
                },
                ..self
            }
        }
    }

    pub open spec fn stopped(self) -> DeskModel {
        DeskModel {
            started: false,
            phase: ServerPhase::Stopped,
            active_connections: 0,
            screen: Screen::ServerHome,
            ..self
        }.noted("服务已停止"@)
    }

    pub open spec fn starting(self) -> DeskModel {
        DeskModel {
            started: true,
            logs: Seq::empty(),
            screen: Screen::ServerRunning,
            phase: ServerPhase::Starting,
            ..self
        }.noted("正在启动服务监听"@)
    }
}

#[verifier::loop_isolation(false)]
fn split_entry(line: &str) -> (r: (Level, String))
    ensures
        (r.0, r.1@) == entry_of(line@),
{
    let chars: Vec<char> = chars_of(line);
    let mut at: usize = 0;
    while at < chars.len() && chars[at] != ' '
        invariant
            at <= chars@.len(),
            forall|k: int| 0 <= k < at ==> chars@[k] != ' ',
        decreases chars@.len() - at,
    {
        at += 1;
    }
    proof {
        line@.index_of_first_ensures(' ');
    }
    if at == chars.len() {
        return (Level::Info, line.to_owned());
    }
    proof {
        let first = line@.index_of_first(' ')->0;
        assert(line@.contains(' ')) by {
            assert(line@[at as int] == ' ');
        }
        assert(first == at);
    }
    let word: String = text_of(&chars, 0, at);
    assert(word@ =~= line@.take(at as int));
    let level: Level = if same_text(&word, "WARN") {
        Level::Warn
    } else if same_text(&word, "ERROR") {
        Level::Error
    } else if same_text(&word, "FATAL") {
        Level::Fatal
    } else {
        Level::Info
    };
    (level, text_from(line, at + 1))
}

impl ServerDesk {
    /// Puts a line of the server's log on the page.
    #[verifier::loop_isolation(false)]
    pub fn log_line(&mut self, line: &str, clock: &str)
        ensures
            final(self)@ == old(self)@.logged(line@, clock@),
            final(self).logs@.len() <= LOG_LIMIT,
            final(self).config == old(self).config,
    {
        let entry: (Level, String) = split_entry(line);
        if entry.0 == Level::Fatal || starts_with(&entry.1, "listener bind failed") {
            self.phase = ServerPhase::Failed;
        }
        let ghost before = log_models(self.logs@);
        let entry = LogEntry { clock: clock.to_owned(), level: entry.0, message: entry.1 };
        let ghost model = entry@;
        self.logs.push(entry);
        assert(log_models(self.logs@) =~= before.push(model));
        let ghost all = log_models(self.logs@);
        let ghost desk = self@;
        let ghost mut dropped: int = 0;
        assert(all.skip(0) =~= all);
        while self.logs.len() > LOG_LIMIT
            invariant
                0 <= dropped <= all.len(),
                dropped > 0 ==> self.logs@.len() >= LOG_LIMIT,
                log_models(self.logs@) == all.skip(dropped),
                self@ == (DeskModel { logs: all.skip(dropped), ..desk }),
                self.config == old(self).config,
            decreases self.logs@.len(),
        {
            assert(log_models(self.logs@).len() == self.logs@.len());
            let ghost shown = log_models(self.logs@);
            let oldest: LogEntry = self.logs.remove(0);
            assert(log_models(self.logs@) =~= shown.skip(1));
            assert(all.skip(dropped).skip(1) =~= all.skip(dropped + 1));
            proof {
                dropped = dropped + 1;
            }
            assert(log_models(self.logs@) =~= all.skip(dropped));
        }
        assert(log_models(self.logs@).len() == self.logs@.len());
    }

    /// Takes up whether the server listens and whether it has come to its end.
    pub fn refresh_server_state(&mut self, listening: bool, finished: bool)
        ensures
            final(self)@ == old(self)@.refreshed(listening, finished),
            final(self).config == old(self).config,
    {
        if self.started && listening {
            self.phase = ServerPhase::Running;
        }
        if !finished {
            return;
        }
        self.started = false;
        self.active_connections = 0;
        if self.phase != ServerPhase::Stopped {
            self.phase = ServerPhase::Failed;
        }
    }

    /// Shows that the server was told to stop.
    pub fn stop_server(&mut self)
        ensures
            final(self)@ == old(self)@.stopped(),
            final(self).config == old(self).config,
    {
        self.started = false;
        self.phase = ServerPhase::Stopped;
        self.active_connections = 0;
        self.screen = Screen::ServerHome;
        self.note("服务已停止");
    }

    /// Whether a server is to be started; one that runs is shown instead.
    pub fn may_start(&mut self) -> (r: bool)
        ensures
            r == !old(self)@.started,
            final(self)@ == if old(self)@.started {
                DeskModel { screen: Screen::ServerRunning, ..old(self)@ }.noted(
                    "服务已在后台运行"@,
                )
            } else {
                old(self)@
            },
            final(self).config == old(self).config,
    {
        if self.started {
            self.screen = Screen::ServerRunning;
            self.note("服务已在后台运行");
            false
        } else {
            true
        }
    }

    /// Shows why a server is not started: its settings could not be saved.
    pub fn refuse_start(&mut self, complaint: &str)
        ensures
            final(self)@ == old(self)@.noted("启动前保存失败: "@ + complaint@),
            final(self).config == old(self).config,
    {
        self.note(&joined("启动前保存失败: ", complaint));
    }

    /// Shows that a server was started. It does not run before it listens.
    pub fn start_server(&mut self)
        ensures
            final(self)@ == old(self)@.starting(),
            final(self).config == old(self).config,
    {
        self.started = true;
        self.logs = Vec::new();
        self.screen = Screen::ServerRunning;
        self.phase = ServerPhase::Starting;
        self.note("正在启动服务监听");
        assert(self@.logs =~= Seq::empty());
    }
}

/// A server that was started is shown as running only once it listens.
pub proof fn a_server_runs_only_once_it_listens(desk: DeskModel, finished: bool)
    ensures
        desk.starting().refreshed(false, finished).phase != ServerPhase::Running,
        desk.starting().refreshed(true, false).phase == ServerPhase::Running,
        desk.starting().refreshed(true, true).phase == ServerPhase::Failed,
        desk.stopped().refreshed(true, finished).phase == ServerPhase::Stopped,
{
}

/// A client whose row is gone loses its access, and no other does.
pub proof fn a_revoked_client_is_dropped(
    clients: Seq<AllowedModel>,
    rows: Seq<ClientRowModel>,
    client: AllowedModel,
)
    ensures
        shown_clients(clients, rows).contains(client) <==> clients.contains(client) && is_shown(
            client,
            rows,
        ),
    decreases clients.len(),
{
    if clients.len() > 0 {
        let last = clients.last();
        let front = clients.drop_last();
        a_revoked_client_is_dropped(front, rows, client);
        crate::policy::push_contains(shown_clients(front, rows), last);
        crate::policy::push_contains(front, last);
        assert(front.push(last) =~= clients);
    }
}

} // verus!
