//! What a client shows, and how events and time change it.

use crate::client::{
    ClientCommand, ClientConnectionErrorCode, ClientEvent, NewsModel, RECEIPT_TIMEOUT,
};
use crate::clock::{elapsed, CLOCK_END};
use crate::credential::text_of_option;
use crate::config::{AppConfig, EndpointModel, SettingsModel};
use crate::forms::{
    client_endpoint_fault, normalize_defaulted, one_line, parse_port, port_read, single_line_error,
    validate_client_endpoint,
};
use crate::octets::same_id;
use crate::policy::id_set;
use crate::protocol::{
    result_models, status_models, summary_models, HostState, HostStatus, HostSummary, ResultModel,
    StatusModel, WakeResult,
};
use crate::server_view::{DEFAULT_CLIENT_ADDRESS, DEFAULT_CLIENT_PORT};
use crate::text::{copy_texts, decimal, decimal_text, joined, listed, texts, trim, trimmed};
use crate::wake::{Outcome, Progress, ProgressModel, RECOVERY_TIMEOUT};
use vstd::prelude::*;

verus! {

/// The pages.
#[derive(Clone, Copy, Debug, PartialEq, Eq, Structural)]
pub enum Screen {
    Landing,
    ServerHome,
    HostEditor,
    ServerSettings,
    HeaderEditor,
    Credentials,
    CredentialIssue,
    ServerRunning,
    ClientConnect,
    ClientHosts,
    Wake,
    SaveExit,
}

/// What a row of hosts shows.
#[derive(Clone, Copy, Debug, PartialEq, Eq, Structural)]
pub enum RowHostState {
    Online,
    Offline,
    Unknown,
    Waking,
}

#[derive(Clone, Copy, Debug, PartialEq, Eq, Structural)]
pub enum WakePhase {
    Sending,
    Waiting,
    Retrying,
    Complete,
    Partial,
    Failed,
}

#[derive(Clone, Copy, Debug, PartialEq, Eq, Structural)]
pub enum ClientConnectionPhase {
    Disconnected,
    Connecting,
    RetryWaiting,
    Connected,
}

/// The colour of a gauge.
#[derive(Clone, Copy, Debug, PartialEq, Eq, Structural)]
pub enum GaugeColor {
    Green,
    Cyan,
    Yellow,
    Red,
}

/// A row of hosts.
pub struct HostRow {
    pub id: String,
    pub name: String,
    pub mac: String,
    pub ip: String,
    pub wol_ipv6_interface: u32,
    pub state: RowHostState,
    pub selected: bool,
}

pub struct RowModel {
    pub id: Seq<char>,
    pub name: Seq<char>,
    pub mac: Seq<char>,
    pub ip: Seq<char>,
    pub wol_ipv6_interface: u32,
    pub state: RowHostState,
    pub selected: bool,
}

impl View for HostRow {
    type V = RowModel;

    open spec fn view(&self) -> RowModel {
        RowModel {
            id: self.id@,
            name: self.name@,
            mac: self.mac@,
            ip: self.ip@,
            wol_ipv6_interface: self.wol_ipv6_interface,
            state: self.state,
            selected: self.selected,
        }
    }
}

pub open spec fn row_models(rows: Seq<HostRow>) -> Seq<RowModel> {
    rows.map_values(|row: HostRow| row@)
}

/// A wake that was sent.
pub struct ActualWake {
    pub operation_id: [u8; 16],
    pub boot_nonce: [u8; 16],
    pub catalog_version: u64,
    pub targets: Vec<String>,
    pub progress: Progress,
    pub attempt: u8,
    pub ticket: Option<[u8; 32]>,
    pub receipt: bool,
    pub finished: bool,
    pub receipt_deadline: u64,
}

pub struct WakeModel {
    pub operation_id: [u8; 16],
    pub boot_nonce: [u8; 16],
    pub catalog_version: u64,
    pub targets: Seq<Seq<char>>,
    pub progress: ProgressModel,
    pub attempt: u8,
    pub ticket: Option<[u8; 32]>,
    pub receipt: bool,
    pub finished: bool,
    pub receipt_deadline: u64,
}

impl View for ActualWake {
    type V = WakeModel;

    open spec fn view(&self) -> WakeModel {
        WakeModel {
            operation_id: self.operation_id,
            boot_nonce: self.boot_nonce,
            catalog_version: self.catalog_version,
            targets: texts(self.targets@),
            progress: self.progress@,
            attempt: self.attempt,
            ticket: self.ticket,
            receipt: self.receipt,
            finished: self.finished,
            receipt_deadline: self.receipt_deadline,
        }
    }
}

pub open spec fn wake_model(wake: Option<ActualWake>) -> Option<WakeModel> {
    match wake {
        Some(wake) => Some(wake@),
        None => None,
    }
}

/// What is shown of the connection.
pub struct Connection {
    pub phase: ClientConnectionPhase,
    pub attempt: u32,
    pub display: String,
    pub error_code: Option<String>,
    pub error_message: Option<String>,
    pub retry_at: Option<u64>,
}

pub struct ConnectionModel {
    pub phase: ClientConnectionPhase,
    pub attempt: u32,
    pub display: Seq<char>,
    pub error_code: Option<Seq<char>>,
    pub error_message: Option<Seq<char>>,
    pub retry_at: Option<u64>,
}

impl View for Connection {
    type V = ConnectionModel;

    open spec fn view(&self) -> ConnectionModel {
        ConnectionModel {
            phase: self.phase,
            attempt: self.attempt,
            display: self.display@,
            error_code: text_of_option(self.error_code),
            error_message: text_of_option(self.error_message),
            retry_at: self.retry_at,
        }
    }
}

/// What is shown of a wake.
pub struct WakeDisplay {
    pub phase: WakePhase,
    pub attempt: u8,
    pub receipt: bool,
    pub started_at: u64,
    pub deadline: u64,
    /// For each target, whether it was seen.
    pub online: Vec<bool>,
    /// For each target, whether the server refused it.
    pub rejected: Vec<bool>,
}

pub struct DisplayModel {
    pub phase: WakePhase,
    pub attempt: u8,
    pub receipt: bool,
    pub started_at: u64,
    pub deadline: u64,
    pub online: Seq<bool>,
    pub rejected: Seq<bool>,
}

impl View for WakeDisplay {
    type V = DisplayModel;

    open spec fn view(&self) -> DisplayModel {
        DisplayModel {
            phase: self.phase,
            attempt: self.attempt,
            receipt: self.receipt,
            started_at: self.started_at,
            deadline: self.deadline,
            online: self.online@,
            rejected: self.rejected@,
        }
    }
}

/// What a client shows.
pub struct ClientView {
    pub screen: Screen,
    pub connection: Connection,
    pub credential_status: String,
    pub catalog_version: u64,
    pub hosts: Vec<HostRow>,
    pub host_index: usize,
    pub wake: Option<ActualWake>,
    pub display: WakeDisplay,
    /// The last notice.
    pub notice: Option<String>,
}

pub struct ViewModel {
    pub screen: Screen,
    pub connection: ConnectionModel,
    pub credential_status: Seq<char>,
    pub catalog_version: u64,
    pub hosts: Seq<RowModel>,
    pub host_index: usize,
    pub wake: Option<WakeModel>,
    pub display: DisplayModel,
    pub notice: Option<Seq<char>>,
}

impl View for ClientView {
    type V = ViewModel;

    open spec fn view(&self) -> ViewModel {
        ViewModel {
            screen: self.screen,
            connection: self.connection@,
            credential_status: self.credential_status@,
            catalog_version: self.catalog_version,
            hosts: row_models(self.hosts@),
            host_index: self.host_index,
            wake: wake_model(self.wake),
            display: self.display@,
            notice: text_of_option(self.notice),
        }
    }
}

/// The rows with a state for one of the hosts.
pub open spec fn with_state(rows: Seq<RowModel>, id: Seq<char>, state: RowHostState) -> Seq<RowModel> {
    rows.map_values(
        |row: RowModel|
            if row.id == id {
                RowModel { state, ..row }
            } else {
                row
            },
    )
}

/// What a row shows of the state that the server reports.
pub open spec fn shown_state(state: HostState) -> RowHostState {
    match state {
        HostState::Online => RowHostState::Online,
        HostState::Succeeded => RowHostState::Online,
        HostState::Offline => RowHostState::Offline,
        HostState::Failed => RowHostState::Offline,
        HostState::Waking => RowHostState::Waking,
        HostState::Unknown => RowHostState::Unknown,
    }
}

pub open spec fn with_statuses(rows: Seq<RowModel>, statuses: Seq<StatusModel>) -> Seq<RowModel>
    decreases statuses.len(),
{
    if statuses.len() == 0 {
        rows
    } else {
        with_state(
            with_statuses(rows, statuses.drop_last()),
            statuses.last().host_id,
            shown_state(statuses.last().state),
        )
    }
}

/// The rows after a receipt: an accepted host is being woken, unless it was seen
/// already; a refused one stays as it is.
pub open spec fn with_receipt(
    rows: Seq<RowModel>,
    results: Seq<ResultModel>,
    online: Set<Seq<char>>,
) -> Seq<RowModel>
    decreases results.len(),
{
    if results.len() == 0 {
        rows
    } else {
        let front = with_receipt(rows, results.drop_last(), online);
        let last = results.last();
        if last.accepted && !online.contains(last.host_id) {
            with_state(front, last.host_id, RowHostState::Waking)
        } else {
            front
        }
    }
}

/// The row of a host that has just been listed.
pub open spec fn listed_row(id: Seq<char>) -> RowModel {
    RowModel {
        id,
        name: id,
        mac: Seq::empty(),
        ip: Seq::empty(),
        wol_ipv6_interface: 0,
        state: RowHostState::Unknown,
        selected: false,
    }
}

/// For each target, whether it is one of the hosts.
pub open spec fn flags(targets: Seq<Seq<char>>, hosts: Set<Seq<char>>) -> Seq<bool> {
    targets.map_values(|id: Seq<char>| hosts.contains(id))
}

/// The hosts that a receipt refuses.
pub open spec fn refused_ids(results: Seq<ResultModel>) -> Seq<Seq<char>>
    decreases results.len(),
{
    if results.len() == 0 {
        Seq::empty()
    } else {
        let front = refused_ids(results.drop_last());
        if results.last().accepted {
            front
        } else {
            front.push(results.last().host_id)
        }
    }
}

/// The phase that an outcome is shown as; one that is not final leaves the phase
/// as it is.
pub open spec fn phase_of(outcome: Outcome, waiting: WakePhase) -> WakePhase {
    match outcome {
        Outcome::Complete => WakePhase::Complete,
        Outcome::Partial => WakePhase::Partial,
        _ => waiting,
    }
}

pub open spec fn is_final(outcome: Outcome) -> bool {
    outcome == Outcome::Complete || outcome == Outcome::Partial
}

/// The command that sends an attempt of the wake.
pub open spec fn sends(command: Option<ClientCommand>, wake: WakeModel, attempt: u8, ticket: Option<
    [u8; 32],
>) -> bool {
    &&& command is Some
    &&& command->0 is Wake
    &&& texts((command->0)->host_ids@) == wake.targets
    &&& (command->0)->catalog_version == wake.catalog_version
    &&& (command->0)->operation_id == wake.operation_id
    &&& (command->0)->boot_nonce == wake.boot_nonce
    &&& (command->0)->attempt == attempt
    &&& (command->0)->retry_ticket == ticket
}

impl ViewModel {
    pub open spec fn noted(self, text: Seq<char>) -> ViewModel {
        ViewModel { notice: Some(text), ..self }
    }

    /// The wake is given up.
    pub open spec fn abandoned(self, text: Seq<char>) -> ViewModel {
        ViewModel { screen: Screen::ClientHosts, wake: None, notice: Some(text), ..self }
    }

    pub open spec fn connecting(self, attempt: u32) -> ViewModel {
        let shown = ViewModel {
            connection: ConnectionModel {
                phase: ClientConnectionPhase::Connecting,
                attempt,
                display: "第 "@ + decimal(attempt as nat) + " 次尝试"@,
                retry_at: None,
                ..self.connection
            },
            ..self
        };
        if self.wake is None {
            ViewModel { catalog_version: 0, hosts: Seq::empty(), host_index: 0, ..shown }
        } else {
            shown
        }
    }

    pub open spec fn failed(
        self,
        attempt: u32,
        code: ClientConnectionErrorCode,
        message: Seq<char>,
        retry_after: u64,
        now: u64,
    ) -> ViewModel {
        ViewModel {
            connection: ConnectionModel {
                phase: ClientConnectionPhase::RetryWaiting,
                attempt,
                display: "第 "@ + decimal(attempt as nat) + " 次失败"@,
                error_code: Some(code.text()),
                error_message: Some(one_line(message)),
                retry_at: Some(
                    if now + retry_after > u64::MAX {
                        u64::MAX
                    } else {
                        (now + retry_after) as u64
                    },
                ),
            },
            ..self
        }
    }

    pub open spec fn authenticated(self, peer: Seq<char>) -> ViewModel {
        ViewModel {
            connection: ConnectionModel {
                phase: ClientConnectionPhase::Connected,
                display: peer + "  已认证"@,
                error_code: None,
                error_message: None,
                retry_at: None,
                ..self.connection
            },
            credential_status: "凭据与服务端身份已验证"@,
            notice: Some("安全连接已建立"@),
            ..self
        }
    }

    /// The view of an interrupted wake, after the connection is back: one that
    /// is too old, or that lacks its ticket, is not sent again.
    pub open spec fn resumed(self, now: u64) -> ViewModel {
        match self.wake {
            Some(wake) if !wake.finished => {
                if elapsed(wake.progress.created_at, now) >= RECOVERY_TIMEOUT {
                    ViewModel {
                        wake: Some(WakeModel { finished: true, ..wake }),
                        display: DisplayModel { phase: WakePhase::Failed, ..self.display },
                        notice: Some("唤醒操作已超过可恢复时间，未重新提交"@),
                        ..self
                    }
                } else if wake.attempt == 2 && wake.ticket is None {
                    self.noted("重连后缺少第二次尝试票据"@)
                } else {
                    self
                }
            },
            _ => self,
        }
    }

    /// The view once the command that takes an interrupted wake up again was
    /// sent, or could not be.
    pub open spec fn taken_up(self, sent: bool, now: u64) -> ViewModel {
        if !self.resends(now) {
            self
        } else if !sent {
            self.noted("安全重连后无法恢复唤醒操作"@)
        } else {
            let wake = self.wake->0;
            ViewModel {
                wake: Some(
                    WakeModel {
                        receipt: false,
                        receipt_deadline: (now + RECEIPT_TIMEOUT) as u64,
                        ..wake
                    },
                ),
                display: DisplayModel {
                    receipt: false,
                    attempt: wake.attempt,
                    phase: if wake.attempt == 2 {
                        WakePhase::Retrying
                    } else {
                        WakePhase::Sending
                    },
                    ..self.display
                },
                notice: Some("安全连接已恢复，正在恢复唤醒状态"@),
                ..self
            }
        }
    }

    /// The interrupted wake is sent again.
    pub open spec fn resends(self, now: u64) -> bool {
        match self.wake {
            Some(wake) => !wake.finished && elapsed(wake.progress.created_at, now)
                < RECOVERY_TIMEOUT && !(wake.attempt == 2 && wake.ticket is None),
            None => false,
        }
    }

    pub open spec fn catalogued(self, catalog_version: u64, hosts: Seq<Seq<char>>) -> ViewModel {
        if self.wake is Some && self.screen == Screen::Wake {
            self
        } else {
            ViewModel {
                catalog_version,
                hosts: hosts.map_values(|id: Seq<char>| listed_row(id)),
                host_index: 0,
                notice: Some("已载入 "@ + decimal(hosts.len()) + " 台主机"@),
                ..self
            }
        }
    }

    /// The view after a receipt of the wake.
    pub open spec fn receipted(
        self,
        wake: WakeModel,
        ticket: [u8; 32],
        results: Seq<ResultModel>,
        now: u64,
    ) -> ViewModel {
        let progress = wake.progress.received(results, now);
        let outcome = progress.outcome(id_set(wake.targets));
        let shown = ViewModel {
            wake: Some(
                WakeModel {
                    receipt: true,
                    ticket: Some(ticket),
                    progress,
                    finished: wake.finished || is_final(outcome),
                    ..wake
                },
            ),
            display: DisplayModel {
                receipt: true,
                phase: phase_of(outcome, WakePhase::Waiting),
                deadline: progress.deadline,
                started_at: progress.started_at->0,
                online: flags(wake.targets, progress.online),
                rejected: flags(wake.targets, id_set(refused_ids(results))),
                ..self.display
            },
            hosts: with_receipt(self.hosts, results, progress.online),
            ..self
        };
        if progress.accepted =~= Set::<Seq<char>>::empty() {
            shown.abandoned("服务端拒绝了全部目标"@)
        } else {
            shown
        }
    }

    /// The view after a host of the wake was seen.
    pub open spec fn sighted(self, wake: WakeModel, host_id: Seq<char>) -> ViewModel {
        let progress = wake.progress.observed(host_id);
        let outcome = progress.outcome(id_set(wake.targets));
        ViewModel {
            wake: Some(
                WakeModel { progress, finished: wake.finished || is_final(outcome), ..wake },
            ),
            display: DisplayModel {
                phase: phase_of(outcome, self.display.phase),
                online: flags(wake.targets, progress.online),
                ..self.display
            },
            hosts: with_state(self.hosts, host_id, RowHostState::Online),
            ..self
        }
    }

    pub open spec fn disconnected(self) -> ViewModel {
        ViewModel {
            wake: None,
            screen: if self.screen == Screen::ClientHosts || self.screen == Screen::Wake {
                Screen::ClientConnect
            } else {
                self.screen
            },
            connection: ConnectionModel {
                phase: ClientConnectionPhase::Disconnected,
                display: "连接已断开"@,
                retry_at: None,
                ..self.connection
            },
            notice: Some("客户端连接已断开"@),
            ..self
        }
    }

    /// The view after an event.
    pub open spec fn applied(self, event: NewsModel, now: u64) -> ViewModel {
        match event {
            NewsModel::Connecting { attempt } => self.connecting(attempt),
            NewsModel::ConnectionFailed { attempt, code, message, retry_after } => self.failed(
                attempt,
                code,
                message,
                retry_after,
                now,
            ),
            NewsModel::Connected { peer, server_fingerprint } => self.authenticated(peer).resumed(
                now,
            ),
            NewsModel::Hosts { catalog_version, hosts } => self.catalogued(catalog_version, hosts),
            NewsModel::Statuses { catalog_version, statuses } => ViewModel {
                hosts: with_statuses(self.hosts, statuses),
                ..self
            },
            NewsModel::CommandExecuted {
                operation_id,
                attempt,
                retry_ticket,
                deadline_ms,
                results,
            } => match self.wake {
                Some(wake) if wake.operation_id == operation_id && wake.attempt == attempt =>
                    self.receipted(wake, retry_ticket, results, now),
                _ => self,
            },
            NewsModel::TargetOnline { operation_id, attempt, host_id } => match self.wake {
                Some(wake) if wake.operation_id == operation_id && wake.attempt == attempt
                    && wake.progress.accepted.contains(host_id) => self.sighted(wake, host_id),
                _ => self,
            },
            NewsModel::Error(text) => self.noted(text),
            NewsModel::Disconnected => self.disconnected(),
        }
    }
}

impl ClientView {
    fn note(&mut self, text: &str)
        ensures
            final(self)@ == old(self)@.noted(text@),
    {
        self.notice = Some(text.to_owned());
    }

    #[verifier::loop_isolation(false)]
    fn set_state(&mut self, id: &str, state: RowHostState)
        ensures
            final(self)@ == (ViewModel {
                hosts: with_state(old(self)@.hosts, id@, state),
                ..old(self)@
            }),
    {
        let ghost before = row_models(self.hosts@);
        let mut rows: Vec<HostRow> = Vec::new();
        let mut i: usize = 0;
        while i < self.hosts.len()
            invariant
                i == rows@.len() <= self.hosts@.len(),
                forall|k: int| 0 <= k < i ==> (#[trigger] rows@[k])@ == with_state(before, id@, state)[k],
            decreases self.hosts@.len() - i,
        {
            let row: &HostRow = &self.hosts[i];
            let shown: RowHostState = if crate::text::same_text(&row.id, id) {
                state
            } else {
                row.state
            };
            assert(before[i as int] == row@);
            rows.push(
                HostRow {
                    id: row.id.clone(),
                    name: row.name.clone(),
                    mac: row.mac.clone(),
                    ip: row.ip.clone(),
                    wol_ipv6_interface: row.wol_ipv6_interface,
                    state: shown,
                    selected: row.selected,
                },
            );
            i += 1;
        }
        assert(row_models(rows@) =~= with_state(before, id@, state));
        self.hosts = rows;
    }
}

fn show_state(state: HostState) -> (r: RowHostState)
    ensures
        r == shown_state(state),
{
    match state {
        HostState::Online => RowHostState::Online,
        HostState::Succeeded => RowHostState::Online,
        HostState::Offline => RowHostState::Offline,
        HostState::Failed => RowHostState::Offline,
        HostState::Waking => RowHostState::Waking,
        HostState::Unknown => RowHostState::Unknown,
    }
}

#[verifier::loop_isolation(false)]
fn make_flags(targets: &Vec<String>, hosts: &Vec<String>) -> (r: Vec<bool>)
    ensures
        r@ == flags(texts(targets@), id_set(texts(hosts@))),
{
    let mut out: Vec<bool> = Vec::new();
    let mut i: usize = 0;
    while i < targets.len()
        invariant
            i == out@.len() <= targets@.len(),
            forall|k: int|
                0 <= k < i ==> #[trigger] out@[k] == flags(
                    texts(targets@),
                    id_set(texts(hosts@)),
                )[k],
        decreases targets@.len() - i,
    {
        out.push(listed(hosts, &targets[i]));
        i += 1;
    }
    assert(out@ =~= flags(texts(targets@), id_set(texts(hosts@))));
    out
}

#[verifier::loop_isolation(false)]
fn collect_refused(results: &Vec<WakeResult>) -> (r: Vec<String>)
    ensures
        texts(r@) == refused_ids(result_models(results@)),
{
    let ghost all = result_models(results@);
    let mut out: Vec<String> = Vec::new();
    let mut i: usize = 0;
    assert(all.take(0) =~= Seq::<ResultModel>::empty());
    assert(texts(out@) =~= Seq::<Seq<char>>::empty());
    while i < results.len()
        invariant
            i <= results@.len(),
            texts(out@) == refused_ids(all.take(i as int)),
        decreases results@.len() - i,
    {
        assert(all.take(i + 1).drop_last() =~= all.take(i as int));
        assert(all.take(i + 1).last() == results@[i as int]@);
        if !results[i].accepted {
            let ghost before = texts(out@);
            out.push(results[i].host_id.clone());
            assert(texts(out@) =~= before.push(all[i as int].host_id));
        }
        i += 1;
    }
    assert(all.take(i as int) =~= all);
    out
}

#[verifier::loop_isolation(false)]
fn listed_rows(hosts: &Vec<HostSummary>) -> (r: Vec<HostRow>)
    ensures
        row_models(r@) == summary_models(hosts@).map_values(|id: Seq<char>| listed_row(id)),
{
    let mut out: Vec<HostRow> = Vec::new();
    let mut i: usize = 0;
    while i < hosts.len()
        invariant
            i == out@.len() <= hosts@.len(),
            forall|k: int| 0 <= k < i ==> (#[trigger] out@[k])@ == listed_row(hosts@[k].host_id@),
        decreases hosts@.len() - i,
    {
        let row = HostRow {
            id: hosts[i].host_id.clone(),
            name: hosts[i].host_id.clone(),
            mac: String::new(),
            ip: String::new(),
            wol_ipv6_interface: 0,
            state: RowHostState::Unknown,
            selected: false,
        };
        assert(row@.mac =~= Seq::<char>::empty() && row@.ip =~= Seq::<char>::empty());
        out.push(row);
        i += 1;
    }
    assert(row_models(out@) =~= summary_models(hosts@).map_values(
        |id: Seq<char>| listed_row(id),
    ));
    out
}

impl ActualWake {
    fn command(&self, attempt: u8, retry_ticket: Option<[u8; 32]>) -> (r: ClientCommand)
        ensures
            sends(Some(r), self@, attempt, retry_ticket),
    {
        ClientCommand::Wake {
            host_ids: copy_texts(&self.targets),
            catalog_version: self.catalog_version,
            operation_id: self.operation_id,
            boot_nonce: self.boot_nonce,
            attempt,
            retry_ticket,
        }
    }

    /// Notes what has come of the wake.
    fn settle(&mut self) -> (r: Outcome)
        ensures
            r == old(self)@.progress.outcome(id_set(old(self)@.targets)),
            final(self)@ == (WakeModel {
                finished: old(self)@.finished || is_final(r),
                ..old(self)@
            }),
    {
        let outcome: Outcome = self.progress.outcome(&self.targets);
        match outcome {
            Outcome::Complete => {
                self.finished = true;
            },
            Outcome::Partial => {
                self.finished = true;
            },
            _ => {},
        }
        outcome
    }
}

fn show_outcome(outcome: Outcome, waiting: WakePhase) -> (r: WakePhase)
    ensures
        r == phase_of(outcome, waiting),
{
    match outcome {
        Outcome::Complete => WakePhase::Complete,
        Outcome::Partial => WakePhase::Partial,
        _ => waiting,
    }
}

fn counted_text(before: &str, n: u64, after: &str) -> (r: String)
    ensures
        r@ == before@ + decimal(n as nat) + after@,
{
    let mut text: String = joined(before, &decimal_text(n));
    text.append(after);
    text
}

impl ClientView {
    #[verifier::loop_isolation(false)]
    fn apply_statuses(&mut self, statuses: &Vec<HostStatus>)
        ensures
            final(self)@ == (ViewModel {
                hosts: with_statuses(old(self)@.hosts, status_models(statuses@)),
                ..old(self)@
            }),
    {
        let ghost before = self@;
        let ghost all = status_models(statuses@);
        let mut i: usize = 0;
        assert(all.take(0) =~= Seq::<StatusModel>::empty());
        while i < statuses.len()
            invariant
                i <= statuses@.len(),
                self@ == (ViewModel {
                    hosts: with_statuses(before.hosts, all.take(i as int)),
                    ..before
                }),
            decreases statuses@.len() - i,
        {
            assert(all.take(i + 1).drop_last() =~= all.take(i as int));
            assert(all.take(i + 1).last() == statuses@[i as int]@);
            self.set_state(&statuses[i].host_id, show_state(statuses[i].state));
            i += 1;
        }
        assert(all.take(i as int) =~= all);
    }

    #[verifier::loop_isolation(false)]
    fn apply_results(&mut self, results: &Vec<WakeResult>, online: &Vec<String>)
        ensures
            final(self)@ == (ViewModel {
                hosts: with_receipt(
                    old(self)@.hosts,
                    result_models(results@),
                    id_set(texts(online@)),
                ),
                ..old(self)@
            }),
    {
        let ghost before = self@;
        let ghost all = result_models(results@);
        let ghost seen = id_set(texts(online@));
        let mut i: usize = 0;
        assert(all.take(0) =~= Seq::<ResultModel>::empty());
        while i < results.len()
            invariant
                i <= results@.len(),
                self@ == (ViewModel {
                    hosts: with_receipt(before.hosts, all.take(i as int), seen),
                    ..before
                }),
            decreases results@.len() - i,
        {
            assert(all.take(i + 1).drop_last() =~= all.take(i as int));
            assert(all.take(i + 1).last() == results@[i as int]@);
            if results[i].accepted && !listed(online, &results[i].host_id) {
                self.set_state(&results[i].host_id, RowHostState::Waking);
            }
            i += 1;
        }
        assert(all.take(i as int) =~= all);
    }

    fn abandon(&mut self, text: &str)
        ensures
            final(self)@ == old(self)@.abandoned(text@),
    {
        self.screen = Screen::ClientHosts;
        self.wake = None;
        self.notice = Some(text.to_owned());
    }

    fn apply_receipt(&mut self, ticket: &[u8; 32], results: &Vec<WakeResult>, now: u64)
        requires
            old(self).wake is Some,
            now <= CLOCK_END,
        ensures
            final(self)@ == old(self)@.receipted(
                old(self).wake->0@,
                *ticket,
                result_models(results@),
                now,
            ),
    {
        let ghost before = self@;
        let mut wake: ActualWake = match self.wake.take() {
            Some(wake) => wake,
            None => {
                return;
            },
        };
        let ghost was = wake@;
        wake.receipt = true;
        wake.ticket = Some(*ticket);
        wake.progress.receive(results, now);
        let outcome: Outcome = wake.settle();
        self.display.receipt = true;
        self.display.phase = show_outcome(outcome, WakePhase::Waiting);
        self.display.deadline = wake.progress.deadline;
        if let Some(at) = wake.progress.started_at {
            self.display.started_at = at;
        }
        self.display.online = make_flags(&wake.targets, &wake.progress.online);
        self.display.rejected = make_flags(&wake.targets, &collect_refused(results));
        let none_accepted: bool = wake.progress.accepted.len() == 0;
        proof {
            if none_accepted {
                assert(wake.progress@.accepted =~= Set::<Seq<char>>::empty());
            } else {
                assert(texts(wake.progress.accepted@)[0] == wake.progress.accepted@[0]@);
                assert(wake.progress@.accepted.contains(wake.progress.accepted@[0]@));
            }
        }
        let online: Vec<String> = copy_texts(&wake.progress.online);
        self.wake = Some(wake);
        self.apply_results(results, &online);
        if none_accepted {
            self.abandon("服务端拒绝了全部目标");
        }
    }

    fn apply_sighting(&mut self, host_id: &str)
        requires
            old(self).wake is Some,
        ensures
            final(self)@ == old(self)@.sighted(old(self).wake->0@, host_id@),
    {
        let mut wake: ActualWake = match self.wake.take() {
            Some(wake) => wake,
            None => {
                return;
            },
        };
        wake.progress.observe(host_id);
        let outcome: Outcome = wake.settle();
        self.display.phase = show_outcome(outcome, self.display.phase);
        self.display.online = make_flags(&wake.targets, &wake.progress.online);
        self.wake = Some(wake);
        self.set_state(host_id, RowHostState::Online);
    }

    /// The command that takes an interrupted wake up again.
    fn resume_wake_after_reconnect(&mut self, now: u64) -> (r: Option<ClientCommand>)
        requires
            now <= CLOCK_END,
        ensures
            final(self)@ == old(self)@.resumed(now),
            if old(self)@.resends(now) {
                let wake = old(self)@.wake->0;
                sends(
                    r,
                    wake,
                    wake.attempt,
                    if wake.attempt == 2 {
                        wake.ticket
                    } else {
                        None
                    },
                )
            } else {
                r is None
            },
    {
        let mut wake: ActualWake = match self.wake.take() {
            Some(wake) => wake,
            None => {
                return None;
            },
        };
        if wake.finished {
            self.wake = Some(wake);
            return None;
        }
        if !wake.progress.recoverable(now) {
            wake.finished = true;
            self.wake = Some(wake);
            self.display.phase = WakePhase::Failed;
            self.note("唤醒操作已超过可恢复时间，未重新提交");
            return None;
        }
        let ticket: Option<[u8; 32]> = if wake.attempt == 2 {
            if wake.ticket.is_none() {
                self.wake = Some(wake);
                self.note("重连后缺少第二次尝试票据");
                return None;
            }
            wake.ticket
        } else {
            None
        };
        let command: ClientCommand = wake.command(wake.attempt, ticket);
        self.wake = Some(wake);
        Some(command)
    }

    /// Notes that the command that takes an interrupted wake up again was sent,
    /// or could not be.
    pub fn resume_sent(&mut self, sent: bool, now: u64)
        requires
            now <= CLOCK_END,
        ensures
            final(self)@ == old(self)@.taken_up(sent, now),
    {
        let mut wake: ActualWake = match self.wake.take() {
            Some(wake) => wake,
            None => {
                return;
            },
        };
        if wake.finished || !wake.progress.recoverable(now) || (wake.attempt == 2
            && wake.ticket.is_none()) {
            self.wake = Some(wake);
            return;
        }
        if !sent {
            self.wake = Some(wake);
            self.note("安全重连后无法恢复唤醒操作");
            return;
        }
        wake.receipt = false;
        wake.receipt_deadline = now + RECEIPT_TIMEOUT;
        self.display.receipt = false;
        self.display.attempt = wake.attempt;
        self.display.phase = if wake.attempt == 2 {
            WakePhase::Retrying
        } else {
            WakePhase::Sending
        };
        self.wake = Some(wake);
        self.note("安全连接已恢复，正在恢复唤醒状态");
    }

    /// Takes an event in. The result is the command that takes an interrupted
    /// wake up again; what becomes of it is for `resume_sent`. Nothing is shown as online or offline but what the server says.
    pub fn apply_client_event(&mut self, event: ClientEvent, now: u64) -> (r: Option<ClientCommand>)
        requires
            now <= CLOCK_END,
        ensures
            final(self)@ == old(self)@.applied(event@, now),
            if event is Connected && old(self)@.resends(now) {
                let wake = old(self)@.wake->0;
                sends(
                    r,
                    wake,
                    wake.attempt,
                    if wake.attempt == 2 {
                        wake.ticket
                    } else {
                        None
                    },
                )
            } else {
                r is None
            },
    {
        match event {
            ClientEvent::Connecting { attempt } => {
                if self.wake.is_none() {
                    self.catalog_version = 0;
                    self.hosts = Vec::new();
                    self.host_index = 0;
                    assert(row_models(self.hosts@) =~= Seq::<RowModel>::empty());
                }
                self.connection.phase = ClientConnectionPhase::Connecting;
                self.connection.attempt = attempt;
                self.connection.display = counted_text("第 ", attempt as u64, " 次尝试");
                self.connection.retry_at = None;
                None
            },
            ClientEvent::ConnectionFailed { attempt, code, message, retry_after } => {
                self.connection.phase = ClientConnectionPhase::RetryWaiting;
                self.connection.attempt = attempt;
                self.connection.display = counted_text("第 ", attempt as u64, " 次失败");
                self.connection.error_code = Some(code.as_str().to_owned());
                self.connection.error_message = Some(single_line_error(&message));
                self.connection.retry_at = Some(now.saturating_add(retry_after));
                None
            },
            ClientEvent::Connected { peer, .. } => {
                self.connection.phase = ClientConnectionPhase::Connected;
                self.connection.display = joined(&peer, "  已认证");
                self.connection.error_code = None;
                self.connection.error_message = None;
                self.connection.retry_at = None;
                self.credential_status = "凭据与服务端身份已验证".to_owned();
                self.note("安全连接已建立");
                self.resume_wake_after_reconnect(now)
            },
            ClientEvent::Hosts { catalog_version, hosts } => {
                if self.wake.is_some() && self.screen == Screen::Wake {
                    return None;
                }
                self.catalog_version = catalog_version;
                self.hosts = listed_rows(&hosts);
                self.host_index = 0;
                assert(summary_models(hosts@).len() == hosts@.len());
                self.notice = Some(counted_text("已载入 ", hosts.len() as u64, " 台主机"));
                None
            },
            ClientEvent::Statuses { statuses, .. } => {
                self.apply_statuses(&statuses);
                None
            },
            ClientEvent::CommandExecuted {
                operation_id,
                attempt,
                retry_ticket,
                results,
                ..
            } => {
                let matches: bool = match &self.wake {
                    Some(wake) => same_id(&wake.operation_id, &operation_id) && wake.attempt
                        == attempt,
                    None => false,
                };
                if matches {
                    self.apply_receipt(&retry_ticket, &results, now);
                }
                None
            },
            ClientEvent::TargetOnline { operation_id, attempt, host_id } => {
                let matches: bool = match &self.wake {
                    Some(wake) => same_id(&wake.operation_id, &operation_id) && wake.attempt
                        == attempt && listed(&wake.progress.accepted, &host_id),
                    None => false,
                };
                if matches {
                    self.apply_sighting(&host_id);
                }
                None
            },
            ClientEvent::Error(text) => {
                self.notice = Some(text);
                None
            },
            ClientEvent::Disconnected => {
                self.disconnect();
                None
            },
        }
    }

    fn disconnect(&mut self)
        ensures
            final(self)@ == old(self)@.disconnected(),
    {
        self.wake = None;
        if self.screen == Screen::ClientHosts || self.screen == Screen::Wake {
            self.screen = Screen::ClientConnect;
        }
        self.connection.phase = ClientConnectionPhase::Disconnected;
        self.connection.display = "连接已断开".to_owned();
        self.connection.retry_at = None;
        self.note("客户端连接已断开");
    }

    /// Notes that the client is gone without a word.
    pub fn channel_closed(&mut self)
        ensures
            final(self)@ == (ViewModel {
                connection: ConnectionModel {
                    error_code: Some(ClientConnectionErrorCode::Transport.text()),
                    error_message: Some("客户端事件通道已关闭"@),
                    ..old(self)@.disconnected().connection
                },
                ..old(self)@.disconnected()
            }),
    {
        self.disconnect();
        self.connection.error_code = Some(ClientConnectionErrorCode::Transport.as_str().to_owned());
        self.connection.error_message = Some("客户端事件通道已关闭".to_owned());
    }
}

impl ViewModel {
    /// The wake is running, shown, and connected.
    pub open spec fn is_waiting(self) -> bool {
        self.wake is Some && !self.wake->0.finished && self.screen == Screen::Wake
            && self.connection.phase == ClientConnectionPhase::Connected
    }

    /// The window of the first attempt is over, and it may be tried again.
    pub open spec fn retries(self, now: u64) -> bool {
        self.is_waiting() && self.wake->0.receipt && now >= self.wake->0.progress.deadline
            && self.wake->0.attempt == 1 && self.wake->0.ticket is Some
    }

    /// The view as time goes on. A second attempt is asked for through the
    /// client, if there is one.
    pub open spec fn ticked(self, attached: bool, now: u64) -> ViewModel {
        if !self.is_waiting() {
            self
        } else {
            let wake = self.wake->0;
            if !wake.receipt {
                if now >= wake.receipt_deadline {
                    self.abandoned("等待服务端执行回执超时"@)
                } else {
                    self
                }
            } else if now < wake.progress.deadline {
                self
            } else if wake.attempt != 1 {
                self.abandoned("两次等待均已超时"@)
            } else if wake.ticket is None {
                self.abandoned("服务端未返回重试票据"@)
            } else if !attached {
                self.abandoned("客户端连接已断开，无法申请重发"@)
            } else {
                self
            }
        }
    }

    /// The view once the command for the second attempt was sent, or could not
    /// be.
    pub open spec fn retried(self, sent: bool, now: u64) -> ViewModel {
        if !self.retries(now) {
            self
        } else if !sent {
            self.abandoned("客户端 actor 已退出"@)
        } else {
            ViewModel {
                wake: Some(
                    WakeModel {
                        attempt: 2,
                        receipt: false,
                        progress: ProgressModel::begun(now),
                        receipt_deadline: (now + RECEIPT_TIMEOUT) as u64,
                        ..self.wake->0
                    },
                ),
                display: DisplayModel {
                    attempt: 2,
                    receipt: false,
                    phase: WakePhase::Retrying,
                    started_at: now,
                    deadline: ProgressModel::begun(now).deadline,
                    online: Seq::new(self.display.online.len(), |i: int| false),
                    ..self.display
                },
                notice: Some("一分钟未全部上线，正在申请一次授权重发"@),
                ..self
            }
        }
    }

    /// The hosts that are selected, in order.
    pub open spec fn selected(self) -> Seq<Seq<char>> {
        selected_ids(self.hosts)
    }

    /// Why no wake is sent. `attached` says whether there is a client to send it.
    pub open spec fn wake_refusal(self, attached: bool) -> Option<Seq<char>> {
        if self.connection.phase != ClientConnectionPhase::Connected {
            Some("安全连接尚未建立，未发送唤醒请求"@)
        } else if !attached {
            Some("尚未建立安全连接"@)
        } else if self.selected().len() == 0 {
            Some("请先用 Space 选择至少一台主机"@)
        } else if self.catalog_version == 0 {
            Some("主机目录尚未就绪，请稍候"@)
        } else {
            None
        }
    }

    /// The wake of the selected hosts, as it begins.
    pub open spec fn first_wake(
        self,
        operation_id: [u8; 16],
        boot_nonce: [u8; 16],
        now: u64,
    ) -> WakeModel {
        WakeModel {
            operation_id,
            boot_nonce,
            catalog_version: self.catalog_version,
            targets: self.selected(),
            progress: ProgressModel::begun(now),
            attempt: 1,
            ticket: None,
            receipt: false,
            finished: false,
            receipt_deadline: (now + RECEIPT_TIMEOUT) as u64,
        }
    }

    /// The view once the command for a first attempt was sent, or could not be.
    /// What the rows show stays as it is.
    pub open spec fn started(
        self,
        sent: bool,
        operation_id: [u8; 16],
        boot_nonce: [u8; 16],
        now: u64,
    ) -> ViewModel {
        if self.wake_refusal(true) is Some {
            self
        } else if !sent {
            self.noted("客户端 actor 已退出"@)
        } else {
            let wake = self.first_wake(operation_id, boot_nonce, now);
            ViewModel {
                screen: Screen::Wake,
                wake: Some(wake),
                display: DisplayModel {
                    phase: WakePhase::Sending,
                    attempt: 1,
                    receipt: false,
                    started_at: now,
                    deadline: wake.progress.deadline,
                    online: Seq::new(wake.targets.len(), |i: int| false),
                    rejected: Seq::new(wake.targets.len(), |i: int| false),
                },
                ..self
            }
        }
    }
}

pub open spec fn selected_ids(rows: Seq<RowModel>) -> Seq<Seq<char>>
    decreases rows.len(),
{
    if rows.len() == 0 {
        Seq::empty()
    } else {
        let front = selected_ids(rows.drop_last());
        if rows.last().selected {
            front.push(rows.last().id)
        } else {
            front
        }
    }
}

#[verifier::loop_isolation(false)]
fn collect_selected(rows: &Vec<HostRow>) -> (r: Vec<String>)
    ensures
        texts(r@) == selected_ids(row_models(rows@)),
{
    let ghost all = row_models(rows@);
    let mut out: Vec<String> = Vec::new();
    let mut i: usize = 0;
    assert(all.take(0) =~= Seq::<RowModel>::empty());
    assert(texts(out@) =~= Seq::<Seq<char>>::empty());
    while i < rows.len()
        invariant
            i <= rows@.len(),
            texts(out@) == selected_ids(all.take(i as int)),
        decreases rows@.len() - i,
    {
        assert(all.take(i + 1).drop_last() =~= all.take(i as int));
        assert(all.take(i + 1).last() == rows@[i as int]@);
        if rows[i].selected {
            let ghost before = texts(out@);
            out.push(rows[i].id.clone());
            assert(texts(out@) =~= before.push(all[i as int].id));
        }
        i += 1;
    }
    assert(all.take(i as int) =~= all);
    out
}

impl ClientView {
    /// Lets time go on. The result is the command for the second attempt; what
    /// becomes of it is for `retry_sent`.
    pub fn tick_wake(&mut self, attached: bool, now: u64) -> (r: Option<ClientCommand>)
        requires
            now <= CLOCK_END,
        ensures
            final(self)@ == old(self)@.ticked(attached, now),
            if attached && old(self)@.retries(now) {
                sends(r, old(self)@.wake->0, 2, old(self)@.wake->0.ticket)
            } else {
                r is None
            },
    {
        if self.screen != Screen::Wake || self.connection.phase
            != ClientConnectionPhase::Connected {
            return None;
        }
        let wake: ActualWake = match self.wake.take() {
            Some(wake) => wake,
            None => {
                return None;
            },
        };
        if wake.finished {
            self.wake = Some(wake);
            return None;
        }
        if !wake.receipt {
            let late: bool = now >= wake.receipt_deadline;
            self.wake = Some(wake);
            if late {
                self.abandon("等待服务端执行回执超时");
            }
            return None;
        }
        if now < wake.progress.deadline {
            self.wake = Some(wake);
            return None;
        }
        if wake.attempt != 1 {
            self.abandon("两次等待均已超时");
            return None;
        }
        let ticket: [u8; 32] = match wake.ticket {
            Some(ticket) => ticket,
            None => {
                self.abandon("服务端未返回重试票据");
                return None;
            },
        };
        if !attached {
            self.abandon("客户端连接已断开，无法申请重发");
            return None;
        }
        let command: ClientCommand = wake.command(2, Some(ticket));
        self.wake = Some(wake);
        Some(command)
    }

    /// Notes that the command for the second attempt was sent, or could not be.
    pub fn retry_sent(&mut self, sent: bool, now: u64)
        requires
            now <= CLOCK_END,
        ensures
            final(self)@ == old(self)@.retried(sent, now),
    {
        if self.screen != Screen::Wake || self.connection.phase
            != ClientConnectionPhase::Connected {
            return;
        }
        let mut wake: ActualWake = match self.wake.take() {
            Some(wake) => wake,
            None => {
                return;
            },
        };
        if wake.finished || !wake.receipt || now < wake.progress.deadline || wake.attempt != 1
            || wake.ticket.is_none() {
            self.wake = Some(wake);
            return;
        }
        if !sent {
            self.abandon("客户端 actor 已退出");
            return;
        }
        wake.attempt = 2;
        wake.receipt = false;
        wake.progress = Progress::new(now);
        wake.receipt_deadline = now + RECEIPT_TIMEOUT;
        self.display.attempt = 2;
        self.display.receipt = false;
        self.display.phase = WakePhase::Retrying;
        self.display.started_at = now;
        self.display.deadline = wake.progress.deadline;
        self.display.online = vec![false; self.display.online.len()];
        assert(self.display.online@ =~= Seq::new(old(self)@.display.online.len(), |i: int| false));
        self.wake = Some(wake);
        self.note("一分钟未全部上线，正在申请一次授权重发");
    }

    /// The command that wakes the selected hosts, or a note why there is none;
    /// what becomes of the command is for `wake_sent`.
    pub fn start_wake(
        &mut self,
        attached: bool,
        operation_id: [u8; 16],
        boot_nonce: [u8; 16],
        now: u64,
    ) -> (r: Option<ClientCommand>)
        requires
            now <= CLOCK_END,
        ensures
            match old(self)@.wake_refusal(attached) {
                Some(text) => r is None && final(self)@ == old(self)@.noted(text),
                None => {
                    &&& sends(r, old(self)@.first_wake(operation_id, boot_nonce, now), 1, None)
                    &&& final(self)@ == old(self)@
                },
            },
    {
        if self.connection.phase != ClientConnectionPhase::Connected {
            self.note("安全连接尚未建立，未发送唤醒请求");
            return None;
        }
        if !attached {
            self.note("尚未建立安全连接");
            return None;
        }
        let targets: Vec<String> = collect_selected(&self.hosts);
        assert(texts(targets@).len() == targets@.len());
        if targets.len() == 0 {
            self.note("请先用 Space 选择至少一台主机");
            return None;
        }
        if self.catalog_version == 0 {
            self.note("主机目录尚未就绪，请稍候");
            return None;
        }
        let wake: ActualWake = self.begin(targets, operation_id, boot_nonce, now);
        Some(wake.command(1, None))
    }

    /// A wake of the hosts.
    fn begin(
        &self,
        targets: Vec<String>,
        operation_id: [u8; 16],
        boot_nonce: [u8; 16],
        now: u64,
    ) -> (r: ActualWake)
        requires
            now <= CLOCK_END,
            texts(targets@) == self@.selected(),
        ensures
            r@ == self@.first_wake(operation_id, boot_nonce, now),
    {
        ActualWake {
            operation_id,
            boot_nonce,
            catalog_version: self.catalog_version,
            targets,
            progress: Progress::new(now),
            attempt: 1,
            ticket: None,
            receipt: false,
            finished: false,
            receipt_deadline: now + RECEIPT_TIMEOUT,
        }
    }

    /// Notes that the command for a first attempt was sent, or could not be.
    /// Only then is the wake shown.
    pub fn wake_sent(
        &mut self,
        sent: bool,
        operation_id: [u8; 16],
        boot_nonce: [u8; 16],
        now: u64,
    )
        requires
            now <= CLOCK_END,
        ensures
            final(self)@ == old(self)@.started(sent, operation_id, boot_nonce, now),
    {
        let targets: Vec<String> = collect_selected(&self.hosts);
        assert(texts(targets@).len() == targets@.len());
        if self.connection.phase != ClientConnectionPhase::Connected || targets.len() == 0
            || self.catalog_version == 0 {
            return;
        }
        if !sent {
            self.note("客户端 actor 已退出");
            return;
        }
        let n: usize = targets.len();
        let wake: ActualWake = self.begin(targets, operation_id, boot_nonce, now);
        self.display = WakeDisplay {
            phase: WakePhase::Sending,
            attempt: 1,
            receipt: false,
            started_at: now,
            deadline: wake.progress.deadline,
            online: vec![false; n],
            rejected: vec![false; n],
        };
        assert(self.display.online@ =~= Seq::new(n as nat, |i: int| false));
        assert(self.display.rejected@ =~= Seq::new(n as nat, |i: int| false));
        self.screen = Screen::Wake;
        self.wake = Some(wake);
    }

    /// Leaves the page of a wake that is complete: the hosts are no longer
    /// selected, and what is shown of them stays as it is.
    #[verifier::loop_isolation(false)]
    pub fn finish_wake(&mut self)
        ensures
            final(self)@ == if old(self)@.display.phase == WakePhase::Complete {
                ViewModel {
                    screen: Screen::ClientHosts,
                    wake: None,
                    hosts: old(self)@.hosts.map_values(
                        |row: RowModel| RowModel { selected: false, ..row },
                    ),
                    ..old(self)@
                }
            } else {
                old(self)@
            },
    {
        if self.display.phase != WakePhase::Complete {
            return;
        }
        let ghost before = row_models(self.hosts@);
        let ghost plain = before.map_values(|row: RowModel| RowModel { selected: false, ..row });
        let mut rows: Vec<HostRow> = Vec::new();
        let mut i: usize = 0;
        while i < self.hosts.len()
            invariant
                i == rows@.len() <= self.hosts@.len(),
                forall|k: int| 0 <= k < i ==> (#[trigger] rows@[k])@ == plain[k],
            decreases self.hosts@.len() - i,
        {
            let row: &HostRow = &self.hosts[i];
            assert(before[i as int] == row@);
            rows.push(
                HostRow {
                    id: row.id.clone(),
                    name: row.name.clone(),
                    mac: row.mac.clone(),
                    ip: row.ip.clone(),
                    wol_ipv6_interface: row.wol_ipv6_interface,
                    state: row.state,
                    selected: false,
                },
            );
            i += 1;
        }
        assert(row_models(rows@) =~= plain);
        self.hosts = rows;
        self.screen = Screen::ClientHosts;
        self.wake = None;
    }
}

impl ConnectionModel {
    /// No connection, and none wanted.
    pub open spec fn absent() -> ConnectionModel {
        ConnectionModel {
            phase: ClientConnectionPhase::Disconnected,
            attempt: 0,
            display: "未连接"@,
            error_code: None,
            error_message: None,
            retry_at: None,
        }
    }

    /// The first attempt at a connection.
    pub open spec fn begun() -> ConnectionModel {
        ConnectionModel {
            phase: ClientConnectionPhase::Connecting,
            attempt: 1,
            display: "第 1 次尝试"@,
            error_code: None,
            error_message: None,
            retry_at: None,
        }
    }
}

fn no_connection() -> (r: Connection)
    ensures
        r@ == ConnectionModel::absent(),
{
    Connection {
        phase: ClientConnectionPhase::Disconnected,
        attempt: 0,
        display: "未连接".to_owned(),
        error_code: None,
        error_message: None,
        retry_at: None,
    }
}

impl ClientView {
    /// The view of a client that was just started.
    pub fn new(credential_status: String, now: u64) -> (r: ClientView)
        ensures
            r@ == (ViewModel {
                screen: Screen::ClientConnect,
                connection: ConnectionModel::absent(),
                credential_status: credential_status@,
                catalog_version: 0,
                hosts: Seq::empty(),
                host_index: 0,
                wake: None,
                display: DisplayModel {
                    phase: WakePhase::Sending,
                    attempt: 1,
                    receipt: false,
                    started_at: now,
                    deadline: now,
                    online: Seq::empty(),
                    rejected: Seq::empty(),
                },
                notice: None,
            }),
    {
        let view = ClientView {
            screen: Screen::ClientConnect,
            connection: no_connection(),
            credential_status,
            catalog_version: 0,
            hosts: Vec::new(),
            host_index: 0,
            wake: None,
            display: WakeDisplay {
                phase: WakePhase::Sending,
                attempt: 1,
                receipt: false,
                started_at: now,
                deadline: now,
                online: Vec::new(),
                rejected: Vec::new(),
            },
            notice: None,
        };
        assert(row_models(view.hosts@) =~= Seq::<RowModel>::empty());
        view
    }

    /// Ends the client: nothing is connected and nothing is awaited.
    pub fn shutdown_client(&mut self)
        ensures
            final(self)@ == (ViewModel {
                wake: None,
                connection: ConnectionModel::absent(),
                ..old(self)@
            }),
    {
        self.wake = None;
        self.connection = no_connection();
    }

    /// Shows that a client was started.
    pub fn connect_client(&mut self)
        ensures
            final(self)@ == (ViewModel {
                screen: Screen::ClientHosts,
                connection: ConnectionModel::begun(),
                credential_status: "凭据已验证，正在连接"@,
                catalog_version: 0,
                hosts: Seq::empty(),
                host_index: 0,
                wake: None,
                notice: Some("正在建立安全连接"@),
                ..old(self)@
            }),
    {
        self.wake = None;
        self.catalog_version = 0;
        self.hosts = Vec::new();
        self.host_index = 0;
        self.screen = Screen::ClientHosts;
        self.connection = Connection {
            phase: ClientConnectionPhase::Connecting,
            attempt: 1,
            display: "第 1 次尝试".to_owned(),
            error_code: None,
            error_message: None,
            retry_at: None,
        };
        self.credential_status = "凭据已验证，正在连接".to_owned();
        self.note("正在建立安全连接");
        assert(row_models(self.hosts@) =~= Seq::<RowModel>::empty());
    }

    /// Asks for the catalogue, where there is a connection and a client.
    pub fn refresh(&mut self, attached: bool) -> (r: Option<ClientCommand>)
        ensures
            if old(self)@.connection.phase != ClientConnectionPhase::Connected {
                &&& r is None
                &&& final(self)@ == old(self)@.noted("安全连接尚未建立，客户端会自动重试"@)
            } else if attached {
                &&& r == Some(ClientCommand::Refresh)
                &&& final(self)@ == old(self)@.noted("正在刷新主机目录"@)
            } else {
                &&& r is None
                &&& final(self)@ == old(self)@.noted("尚未建立安全连接"@)
            },
    {
        if self.connection.phase != ClientConnectionPhase::Connected {
            self.note("安全连接尚未建立，客户端会自动重试");
            None
        } else if attached {
            self.note("正在刷新主机目录");
            Some(ClientCommand::Refresh)
        } else {
            self.note("尚未建立安全连接");
            None
        }
    }

    /// Stops showing a wake. What the server does is not stopped.
    pub fn leave_wake(&mut self)
        ensures
            final(self)@ == old(self)@.abandoned("已停止等待显示；服务端操作不会自动重发"@),
    {
        self.abandon("已停止等待显示；服务端操作不会自动重发");
    }
}

/// A field, or where it is empty its default.
pub open spec fn defaulted(value: Seq<char>, default: Seq<char>) -> Seq<char> {
    if trimmed(value).len() == 0 {
        default
    } else {
        trimmed(value)
    }
}

/// The complaint about settings and an address to which a client is to connect.
pub open spec fn connect_fault(config: SettingsModel, address: Seq<char>, port: Seq<char>) -> Option<
    Seq<char>,
> {
    if config.has_server_settings() {
        Some("当前配置包含服务端密钥或主机目录，请使用独立的终端配置文件"@)
    } else {
        client_endpoint_fault(
            trimmed(defaulted(address, DEFAULT_CLIENT_ADDRESS@)),
            trimmed(defaulted(port, DEFAULT_CLIENT_PORT@)),
        )
    }
}

/// The settings with the server that was typed in. A program keeps the settings of
/// a server and those of a client apart.
pub fn connect_settings(config: &AppConfig, address: &str, port: &str) -> (r: Result<
    AppConfig,
    String,
>)
    ensures
        match r {
            Ok(settings) => {
                &&& connect_fault(config@, address@, port@) is None
                &&& settings@ == (SettingsModel {
                    client: EndpointModel {
                        address: trimmed(defaulted(address@, DEFAULT_CLIENT_ADDRESS@)),
                        port: port_read(
                            trimmed(defaulted(port@, DEFAULT_CLIENT_PORT@)),
                        )->Ok_0,
                        ..config@.client
                    },
                    ..config@
                })
            },
            Err(text) => connect_fault(config@, address@, port@) == Some(text@),
        },
{
    if config.has_server_settings() {
        return Err(
            "当前配置包含服务端密钥或主机目录，请使用独立的终端配置文件".to_owned(),
        );
    }
    let address: String = trim(&normalize_defaulted(address, DEFAULT_CLIENT_ADDRESS));
    let port: String = trim(&normalize_defaulted(port, DEFAULT_CLIENT_PORT));
    if let Err(text) = validate_client_endpoint(&address, &port) {
        return Err(text);
    }
    match parse_port(&port) {
        Ok(port) => {
            let mut settings: AppConfig = config.clone();
            settings.client.address = address;
            settings.client.port = port;
            Ok(settings)
        },
        Err(text) => Err(text),
    }
}

/// The gauge of a wake: how many sixtieths of it are full, its label and colour.
/// Only a complete wake is green and shows that all is well.
pub open spec fn gauge_of(phase: WakePhase, elapsed: u64, remaining: u64) -> (
    u64,
    Seq<char>,
    GaugeColor,
) {
    match phase {
        WakePhase::Complete => (60, "OK"@, GaugeColor::Green),
        WakePhase::Partial => (60, "PARTIAL"@, GaugeColor::Yellow),
        WakePhase::Failed => (60, "FAILED"@, GaugeColor::Red),
        _ => (
            if elapsed < 60 {
                elapsed
            } else {
                60
            },
            decimal(remaining as nat) + "s"@,
            GaugeColor::Cyan,
        ),
    }
}

pub fn wake_gauge_presentation(phase: WakePhase, elapsed: u64, remaining: u64) -> (r: (
    u64,
    String,
    GaugeColor,
))
    ensures
        (r.0, r.1@, r.2) == gauge_of(phase, elapsed, remaining),
{
    match phase {
        WakePhase::Complete => (60, "OK".to_owned(), GaugeColor::Green),
        WakePhase::Partial => (60, "PARTIAL".to_owned(), GaugeColor::Yellow),
        WakePhase::Failed => (60, "FAILED".to_owned(), GaugeColor::Red),
        _ => (
            if elapsed < 60 {
                elapsed
            } else {
                60
            },
            joined(&decimal_text(remaining), "s"),
            GaugeColor::Cyan,
        ),
    }
}

/// What a row shows comes from a report of the server: no event but a status or a
/// sighting turns a row to online or to offline.
pub proof fn no_event_invents_a_state(view: ViewModel, event: NewsModel, now: u64, i: int)
    requires
        !(event is Statuses),
        !(event is TargetOnline),
        0 <= i < view.applied(event, now).hosts.len(),
    ensures
        view.applied(event, now).hosts[i].state == RowHostState::Online ==> i < view.hosts.len()
            && view.hosts[i].state == RowHostState::Online,
        view.applied(event, now).hosts[i].state == RowHostState::Offline ==> i < view.hosts.len()
            && view.hosts[i].state == RowHostState::Offline,
{
    match event {
        NewsModel::CommandExecuted {
            operation_id,
            attempt,
            retry_ticket,
            deadline_ms,
            results,
        } => {
            if view.wake is Some {
                let online = view.wake->0.progress.received(results, now).online;
                receipt_invents_nothing(view.hosts, results, online, i);
            }
        },
        _ => {},
    }
}

proof fn receipt_invents_nothing(
    rows: Seq<RowModel>,
    results: Seq<ResultModel>,
    online: Set<Seq<char>>,
    i: int,
)
    ensures
        with_receipt(rows, results, online).len() == rows.len(),
        0 <= i < rows.len() && with_receipt(rows, results, online)[i].state == RowHostState::Online
            ==> rows[i].state == RowHostState::Online,
        0 <= i < rows.len() && with_receipt(rows, results, online)[i].state
            == RowHostState::Offline ==> rows[i].state == RowHostState::Offline,
    decreases results.len(),
{
    if results.len() > 0 {
        receipt_invents_nothing(rows, results.drop_last(), online, i);
    }
}

/// A wake does not go on to its second attempt while the connection is down.
pub proof fn a_disconnected_wake_does_not_advance(
    view: ViewModel,
    attached: bool,
    sent: bool,
    now: u64,
)
    requires
        view.connection.phase != ClientConnectionPhase::Connected,
    ensures
        view.ticked(attached, now) == view,
        view.retried(sent, now) == view,
        !view.retries(now),
{
}

/// A new connection begins without the catalogue of the one before, unless a wake
/// is under way.
pub proof fn a_new_connection_forgets_the_catalogue(view: ViewModel, attempt: u32, now: u64)
    requires
        view.wake is None,
    ensures
        view.applied(NewsModel::Connecting { attempt }, now).catalog_version == 0,
        view.applied(NewsModel::Connecting { attempt }, now).hosts.len() == 0,
{
}

/// A connection is shown only after the event that reports it: neither another
/// event nor time makes a client look connected.
pub proof fn only_its_event_shows_a_connection(
    view: ViewModel,
    event: NewsModel,
    attached: bool,
    sent: bool,
    now: u64,
)
    requires
        view.connection.phase != ClientConnectionPhase::Connected,
        !(event is Connected),
    ensures
        view.applied(event, now).connection.phase != ClientConnectionPhase::Connected,
        view.ticked(attached, now).connection.phase != ClientConnectionPhase::Connected,
        view.retried(sent, now).connection.phase != ClientConnectionPhase::Connected,
        view.taken_up(sent, now).connection.phase != ClientConnectionPhase::Connected,
{
}

/// A wake that can no longer be recovered is not sent again.
pub proof fn an_expired_wake_is_not_sent_again(view: ViewModel, now: u64)
    requires
        view.wake is Some,
        elapsed(view.wake->0.progress.created_at, now) >= RECOVERY_TIMEOUT,
    ensures
        !view.resends(now),
{
}

/// A command that could not be sent leaves every wake and every row as they
/// were, or ends the wake: nothing is shown as sent that was not.
pub proof fn an_unsent_command_shows_nothing_as_sent(
    view: ViewModel,
    operation_id: [u8; 16],
    boot_nonce: [u8; 16],
    now: u64,
)
    ensures
        view.started(false, operation_id, boot_nonce, now).wake == view.wake,
        view.started(false, operation_id, boot_nonce, now).display == view.display,
        view.started(false, operation_id, boot_nonce, now).hosts == view.hosts,
        view.taken_up(false, now).wake == view.wake,
        view.taken_up(false, now).display == view.display,
        view.taken_up(false, now).hosts == view.hosts,
        view.retried(false, now).wake == view.wake || view.retried(false, now).wake is None,
        view.retried(false, now).display == view.display,
        view.retried(false, now).hosts == view.hosts,
{
}

} // verus!
