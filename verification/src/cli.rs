//! The client's commands: listing hosts, and waking some of them.

use crate::client::{ClientCommand, ClientEvent, NewsModel, RECEIPT_TIMEOUT};
use crate::clock::{CLOCK_END, SECOND};
use crate::octets::same_id;
use crate::policy::{id_set, unique_ids};
use crate::protocol::{
    result_models, status_models, summary_models, HostStatus, HostSummary, ResultModel, StatusModel,
    WakeResult, MAX_WAKE_TARGETS,
};
use crate::text::{copy_texts, joined, listed, sort_texts, sorted_texts, texts};
use crate::wake::{Outcome, Progress, ProgressModel};
use vstd::prelude::*;

verus! {

/// How long a client waits for the catalogue.
pub const CATALOG_TIMEOUT: u64 = 20 * SECOND;

/// What a row of the wake shows.
#[derive(Clone, Copy, Debug, PartialEq, Eq, Structural)]
pub enum RowState {
    Queued,
    Sent,
    Rejected,
    Online,
    Retrying,
}

impl RowState {
    pub open spec fn text(self) -> Seq<char> {
        match self {
            RowState::Queued => "QUEUED"@,
            RowState::Sent => "SENT"@,
            RowState::Rejected => "REJECTED"@,
            RowState::Online => "ONLINE"@,
            RowState::Retrying => "RETRYING"@,
        }
    }

    pub fn as_str(self) -> (r: &'static str)
        ensures
            r@ == self.text(),
    {
        match self {
            RowState::Queued => "QUEUED",
            RowState::Sent => "SENT",
            RowState::Rejected => "REJECTED",
            RowState::Online => "ONLINE",
            RowState::Retrying => "RETRYING",
        }
    }
}

/// A wake that is being waited for. The rows stand in the order of the targets.
pub struct WakeSession {
    pub operation_id: [u8; 16],
    pub boot_nonce: [u8; 16],
    pub catalog_version: u64,
    /// Each once, in order.
    pub targets: Vec<String>,
    pub rows: Vec<RowState>,
    pub attempt: u8,
    pub ticket: Option<[u8; 32]>,
    pub progress: Progress,
    pub receipt: bool,
    pub receipt_deadline: u64,
}

pub struct WakeSessionModel {
    pub operation_id: [u8; 16],
    pub boot_nonce: [u8; 16],
    pub catalog_version: u64,
    pub targets: Seq<Seq<char>>,
    pub rows: Seq<RowState>,
    pub attempt: u8,
    pub ticket: Option<[u8; 32]>,
    pub progress: ProgressModel,
    pub receipt: bool,
    pub receipt_deadline: u64,
}

impl View for WakeSession {
    type V = WakeSessionModel;

    open spec fn view(&self) -> WakeSessionModel {
        WakeSessionModel {
            operation_id: self.operation_id,
            boot_nonce: self.boot_nonce,
            catalog_version: self.catalog_version,
            targets: texts(self.targets@),
            rows: self.rows@,
            attempt: self.attempt,
            ticket: self.ticket,
            progress: self.progress@,
            receipt: self.receipt,
            receipt_deadline: self.receipt_deadline,
        }
    }
}

/// What an event means for the wake.
pub enum WakeNews {
    Nothing,
    /// An error of the server, to be shown.
    Note(String),
    /// The wake has failed.
    Fail(String),
}

pub enum WakeNewsModel {
    Nothing,
    Note(Seq<char>),
    Fail(Seq<char>),
}

impl View for WakeNews {
    type V = WakeNewsModel;

    open spec fn view(&self) -> WakeNewsModel {
        match *self {
            WakeNews::Nothing => WakeNewsModel::Nothing,
            WakeNews::Note(text) => WakeNewsModel::Note(text@),
            WakeNews::Fail(text) => WakeNewsModel::Fail(text@),
        }
    }
}

/// What is to be done about the wake now.
pub enum WakeTick {
    Done,
    Fail(String),
    /// Send the second attempt.
    Retry(ClientCommand),
    /// Wait on; so many seconds are left.
    Wait(u64),
}

/// The rows with one state for each of the named hosts.
pub open spec fn marked(
    targets: Seq<Seq<char>>,
    rows: Seq<RowState>,
    host_id: Seq<char>,
    state: RowState,
) -> Seq<RowState> {
    Seq::new(
        rows.len(),
        |i: int|
            if targets[i] == host_id {
                state
            } else {
                rows[i]
            },
    )
}

/// The rows after a receipt.
pub open spec fn receipted(
    targets: Seq<Seq<char>>,
    rows: Seq<RowState>,
    results: Seq<ResultModel>,
) -> Seq<RowState>
    decreases results.len(),
{
    if results.len() == 0 {
        rows
    } else {
        let last = results.last();
        marked(
            targets,
            receipted(targets, rows, results.drop_last()),
            last.host_id,
            if last.accepted {
                RowState::Sent
            } else {
                RowState::Rejected
            },
        )
    }
}

/// The command for an attempt of the wake.
pub open spec fn is_wake_command(
    command: ClientCommand,
    session: WakeSessionModel,
    attempt: u8,
    ticket: Option<[u8; 32]>,
) -> bool {
    &&& command is Wake
    &&& texts(command->host_ids@) == session.targets
    &&& command->catalog_version == session.catalog_version
    &&& command->operation_id == session.operation_id
    &&& command->boot_nonce == session.boot_nonce
    &&& command->attempt == attempt
    &&& command->retry_ticket == ticket
}

impl WakeSessionModel {
    /// What an event means.
    pub open spec fn hears(self, event: NewsModel, now: u64) -> (WakeNewsModel, WakeSessionModel) {
        match event {
            NewsModel::ConnectionFailed { attempt, code, message, retry_after } => (
                WakeNewsModel::Fail("["@ + code.text() + "] "@ + message),
                self,
            ),
            NewsModel::CommandExecuted {
                operation_id,
                attempt,
                retry_ticket,
                deadline_ms,
                results,
            } => if operation_id == self.operation_id && attempt == self.attempt {
                let after = WakeSessionModel {
                    ticket: Some(retry_ticket),
                    receipt: true,
                    rows: receipted(self.targets, self.rows, results),
                    progress: self.progress.received(results, now),
                    ..self
                };
                (
                    if after.progress.accepted =~= Set::<Seq<char>>::empty() {
                        WakeNewsModel::Fail("服务端拒绝了全部目标"@)
                    } else {
                        WakeNewsModel::Nothing
                    },
                    after,
                )
            } else {
                (WakeNewsModel::Nothing, self)
            },
            NewsModel::TargetOnline { operation_id, attempt, host_id } => if operation_id
                == self.operation_id && attempt == self.attempt && self.progress.accepted.contains(
                host_id,
            ) {
                (
                    WakeNewsModel::Nothing,
                    WakeSessionModel {
                        rows: marked(self.targets, self.rows, host_id, RowState::Online),
                        progress: self.progress.observed(host_id),
                        ..self
                    },
                )
            } else {
                (WakeNewsModel::Nothing, self)
            },
            NewsModel::Error(text) => (WakeNewsModel::Note(text), self),
            NewsModel::Disconnected => (WakeNewsModel::Fail("服务端已断开"@), self),
            _ => (WakeNewsModel::Nothing, self),
        }
    }

    /// Why the wake has failed by now.
    pub open spec fn failed(self, now: u64) -> Option<Seq<char>> {
        if self.progress.outcome(id_set(self.targets)) == Outcome::Partial {
            Some("部分目标被拒绝"@)
        } else if !self.receipt && now >= self.receipt_deadline {
            Some("等待服务端执行回执超时"@)
        } else if self.receipt && now >= self.progress.deadline && self.attempt != 1 {
            Some("两次等待均超时"@)
        } else if self.receipt && now >= self.progress.deadline && self.ticket is None {
            Some("服务端未返回 retry ticket"@)
        } else {
            None
        }
    }

    /// The session once its second attempt is sent.
    pub open spec fn retried(self, now: u64) -> WakeSessionModel {
        WakeSessionModel {
            attempt: 2,
            receipt: false,
            rows: Seq::new(self.rows.len(), |i: int| RowState::Retrying),
            progress: ProgressModel::begun(now),
            receipt_deadline: (now + RECEIPT_TIMEOUT) as u64,
            ..self
        }
    }
}

impl WakeSession {
    pub open spec fn wf(self) -> bool {
        self.rows@.len() == self.targets@.len()
    }

    /// Begins a wake: the session, and the command to send.
    #[verifier::loop_isolation(false)]
    pub fn start(
        targets: &Vec<String>,
        catalog_version: u64,
        operation_id: [u8; 16],
        boot_nonce: [u8; 16],
        now: u64,
    ) -> (r: (WakeSession, ClientCommand))
        requires
            now <= CLOCK_END,
        ensures
            r.0.wf(),
            r.0@ == (WakeSessionModel {
                operation_id,
                boot_nonce,
                catalog_version,
                targets: sorted_texts(texts(targets@)),
                rows: Seq::new(targets@.len(), |i: int| RowState::Queued),
                attempt: 1,
                ticket: None,
                progress: ProgressModel::begun(now),
                receipt: false,
                receipt_deadline: (now + RECEIPT_TIMEOUT) as u64,
            }),
            is_wake_command(r.1, r.0@, 1, None),
    {
        proof {
            crate::text::sorted_texts_hold_the_same(texts(targets@));
        }
        let sorted: Vec<String> = sort_texts(targets);
        assert(texts(sorted@).len() == sorted@.len());
        let rows: Vec<RowState> = vec![RowState::Queued; targets.len()];
        assert(rows@ =~= Seq::new(targets@.len(), |i: int| RowState::Queued));
        let session = WakeSession {
            operation_id,
            boot_nonce,
            catalog_version,
            targets: sorted,
            rows,
            attempt: 1,
            ticket: None,
            progress: Progress::new(now),
            receipt: false,
            receipt_deadline: now + RECEIPT_TIMEOUT,
        };
        let command: ClientCommand = session.command(1, None);
        (session, command)
    }

    fn command(&self, attempt: u8, retry_ticket: Option<[u8; 32]>) -> (r: ClientCommand)
        ensures
            is_wake_command(r, self@, attempt, retry_ticket),
    {
        ClientCommand::Wake {
            host_ids: copy_texts(&self.targets),
            catalog_version: self.catalog_version,
            operation_id: self.operation_id,
            boot_nonce: self.boot_nonce,
            attempt,
            retry_ticket,
        }
    }

    #[verifier::loop_isolation(false)]
    fn mark(&mut self, host_id: &str, state: RowState)
        requires
            old(self).wf(),
        ensures
            final(self).wf(),
            final(self)@ == (WakeSessionModel {
                rows: marked(old(self)@.targets, old(self)@.rows, host_id@, state),
                ..old(self)@
            }),
    {
        let ghost before = *self;
        let ghost names = texts(self.targets@);
        let mut rows: Vec<RowState> = Vec::new();
        let mut i: usize = 0;
        while i < self.targets.len()
            invariant
                i == rows@.len() <= self.targets@.len(),
                forall|k: int|
                    0 <= k < i ==> #[trigger] rows@[k] == marked(
                        names,
                        before.rows@,
                        host_id@,
                        state,
                    )[k],
            decreases self.targets@.len() - i,
        {
            if crate::text::same_text(&self.targets[i], host_id) {
                rows.push(state);
            } else {
                rows.push(self.rows[i]);
            }
            i += 1;
        }
        assert(rows@ =~= marked(names, before.rows@, host_id@, state));
        self.rows = rows;
    }

    #[verifier::loop_isolation(false)]
    fn mark_results(&mut self, results: &Vec<WakeResult>)
        requires
            old(self).wf(),
        ensures
            final(self).wf(),
            final(self)@ == (WakeSessionModel {
                rows: receipted(old(self)@.targets, old(self)@.rows, result_models(results@)),
                ..old(self)@
            }),
    {
        let ghost before = self@;
        let ghost all = result_models(results@);
        let mut i: usize = 0;
        assert(all.take(0) =~= Seq::<ResultModel>::empty());
        while i < results.len()
            invariant
                self.wf(),
                i <= results@.len(),
                self@ == (WakeSessionModel {
                    rows: receipted(before.targets, before.rows, all.take(i as int)),
                    ..before
                }),
            decreases results@.len() - i,
        {
            assert(all.take(i + 1).drop_last() =~= all.take(i as int));
            assert(all.take(i + 1).last() == results@[i as int]@);
            let state: RowState = if results[i].accepted {
                RowState::Sent
            } else {
                RowState::Rejected
            };
            self.mark(&results[i].host_id, state);
            i += 1;
        }
        assert(all.take(i as int) =~= all);
    }

    /// Takes an event in.
    pub fn hear(&mut self, event: &ClientEvent, now: u64) -> (r: WakeNews)
        requires
            old(self).wf(),
            now <= CLOCK_END,
        ensures
            final(self).wf(),
            (r@, final(self)@) == old(self)@.hears(event@, now),
    {
        match event {
            ClientEvent::ConnectionFailed { code, message, .. } => {
                let mut text: String = joined("[", code.as_str());
                text.append("] ");
                text.append(message);
                WakeNews::Fail(text)
            },
            ClientEvent::CommandExecuted {
                operation_id,
                attempt,
                retry_ticket,
                results,
                ..
            } => {
                if !same_id(operation_id, &self.operation_id) || *attempt != self.attempt {
                    return WakeNews::Nothing;
                }
                self.ticket = Some(*retry_ticket);
                self.receipt = true;
                self.mark_results(results);
                self.progress.receive(results, now);
                if self.progress.accepted.len() == 0 {
                    assert(self.progress@.accepted =~= Set::<Seq<char>>::empty());
                    return WakeNews::Fail("服务端拒绝了全部目标".to_owned());
                }
                assert(texts(self.progress.accepted@)[0] == self.progress.accepted@[0]@);
                assert(self.progress@.accepted.contains(self.progress.accepted@[0]@));
                WakeNews::Nothing
            },
            ClientEvent::TargetOnline { operation_id, attempt, host_id } => {
                if same_id(operation_id, &self.operation_id) && *attempt == self.attempt && listed(
                    &self.progress.accepted,
                    host_id,
                ) {
                    self.progress.observe(host_id);
                    self.mark(host_id, RowState::Online);
                }
                WakeNews::Nothing
            },
            ClientEvent::Error(text) => WakeNews::Note(text.clone()),
            ClientEvent::Disconnected => WakeNews::Fail("服务端已断开".to_owned()),
            _ => WakeNews::Nothing,
        }
    }

    /// Decides what is to be done now. The client's window decides about the
    /// retry, never the server's time.
    pub fn tick(&mut self, now: u64) -> (r: WakeTick)
        requires
            old(self).wf(),
            now <= CLOCK_END,
        ensures
            final(self).wf(),
            ({
                let was = old(self)@;
                let due = if was.receipt {
                    was.progress.deadline
                } else {
                    was.receipt_deadline
                };
                if was.progress.outcome(id_set(was.targets)) == Outcome::Complete {
                    r is Done && final(self)@ == was
                } else if was.failed(now) is Some {
                    r is Fail && r->Fail_0@ == was.failed(now)->0 && final(self)@ == was
                } else if now >= due {
                    &&& r is Retry
                    &&& is_wake_command(r->Retry_0, was, 2, was.ticket)
                    &&& was.attempt == 1 && was.receipt && was.ticket is Some
                    &&& final(self)@ == was.retried(now)
                } else {
                    &&& r is Wait
                    &&& r->Wait_0 == (due - now) / SECOND as int
                    &&& final(self)@ == was
                }
            }),
    {
        match self.progress.outcome(&self.targets) {
            Outcome::Complete => {
                return WakeTick::Done;
            },
            Outcome::Partial => {
                return WakeTick::Fail("部分目标被拒绝".to_owned());
            },
            _ => {},
        }
        if !self.receipt {
            if now >= self.receipt_deadline {
                return WakeTick::Fail("等待服务端执行回执超时".to_owned());
            }
            return WakeTick::Wait((self.receipt_deadline - now) / SECOND);
        }
        if now < self.progress.deadline {
            return WakeTick::Wait((self.progress.deadline - now) / SECOND);
        }
        if self.attempt != 1 {
            return WakeTick::Fail("两次等待均超时".to_owned());
        }
        let ticket: [u8; 32] = match self.ticket {
            Some(ticket) => ticket,
            None => {
                return WakeTick::Fail("服务端未返回 retry ticket".to_owned());
            },
        };
        let command: ClientCommand = self.command(2, Some(ticket));
        self.attempt = 2;
        self.receipt = false;
        self.rows = vec![RowState::Retrying; self.rows.len()];
        assert(self.rows@ =~= Seq::new(old(self)@.rows.len(), |i: int| RowState::Retrying));
        self.progress = Progress::new(now);
        self.receipt_deadline = now + RECEIPT_TIMEOUT;
        WakeTick::Retry(command)
    }
}

/// The targets that were asked for: each once, in small letters.
pub fn wanted_targets(wake: &Vec<String>) -> (r: Result<Vec<String>, String>)
    ensures
        ({
            let ids = crate::config::normal_ids(texts(wake@));
            match r {
                Ok(list) => {
                    &&& texts(list@).no_duplicates()
                    &&& id_set(texts(list@)) == id_set(ids)
                    &&& list@.len() <= MAX_WAKE_TARGETS
                },
                Err(text) => text@ == "--wake 单次最多包含 64 台主机"@ && exists|list: Vec<String>|
                    texts(list@).no_duplicates() && id_set(#[trigger] texts(list@)) == id_set(ids)
                        && list@.len() > MAX_WAKE_TARGETS,
            }
        }),
{
    let list: Vec<String> = unique_ids(wake);
    if list.len() > MAX_WAKE_TARGETS {
        return Err("--wake 单次最多包含 64 台主机".to_owned());
    }
    Ok(list)
}

/// Whether every target is in the catalogue.
#[verifier::loop_isolation(false)]
pub fn all_in_catalogue(targets: &Vec<String>, hosts: &Vec<HostSummary>) -> (r: bool)
    ensures
        r == (forall|i: int|
            0 <= i < targets@.len() ==> summary_models(hosts@).contains(
                (#[trigger] targets@[i])@,
            )),
{
    let ghost all = summary_models(hosts@);
    let mut i: usize = 0;
    while i < targets.len()
        invariant
            i <= targets@.len(),
            forall|k: int| 0 <= k < i ==> all.contains((#[trigger] targets@[k])@),
        decreases targets@.len() - i,
    {
        let mut found: bool = false;
        let mut k: usize = 0;
        while k < hosts.len() && !found
            invariant
                k <= hosts@.len(),
                found ==> all.contains(targets@[i as int]@),
                !found ==> forall|m: int| 0 <= m < k ==> all[m] != targets@[i as int]@,
            decreases hosts@.len() - k,
        {
            if hosts[k].host_id == targets[i] {
                assert(all[k as int] == targets@[i as int]@);
                found = true;
            }
            k += 1;
        }
        if !found {
            assert(!all.contains(targets@[i as int]@));
            return false;
        }
        i += 1;
    }
    true
}

/// The wait for the catalogue and the states of its hosts.
pub struct CatalogWait {
    pub deadline: u64,
    pub catalog: Option<(Vec<HostSummary>, u64)>,
    /// The last state of each host that one came for.
    pub statuses: Vec<HostStatus>,
    pub error: Option<String>,
}

/// The states, each host with its last one.
pub open spec fn merged(known: Seq<StatusModel>, news: Seq<StatusModel>) -> Seq<StatusModel>
    decreases news.len(),
{
    if news.len() == 0 {
        known
    } else {
        let front = merged(known, news.drop_last());
        replaced(front, news.last())
    }
}

/// The states with one of them replaced, or added where its host has none.
pub open spec fn replaced(known: Seq<StatusModel>, status: StatusModel) -> Seq<StatusModel> {
    if exists|i: int| 0 <= i < known.len() && #[trigger] known[i].host_id == status.host_id {
        Seq::new(
            known.len(),
            |i: int|
                if known[i].host_id == status.host_id {
                    status
                } else {
                    known[i]
                },
        )
    } else {
        known.push(status)
    }
}

/// How the wait for the catalogue goes on.
pub enum CatalogStep {
    Wait,
    /// The catalogue is there; an error that came meanwhile is shown.
    Ready(Option<String>),
    Fail(String),
}

pub open spec fn catalog_model(catalog: Option<(Vec<HostSummary>, u64)>) -> Option<
    (Seq<Seq<char>>, u64),
> {
    match catalog {
        Some((hosts, version)) => Some((summary_models(hosts@), version)),
        None => None,
    }
}

pub struct CatalogModel {
    pub deadline: u64,
    pub catalog: Option<(Seq<Seq<char>>, u64)>,
    pub statuses: Seq<StatusModel>,
    pub error: Option<Seq<char>>,
}

impl View for CatalogWait {
    type V = CatalogModel;

    open spec fn view(&self) -> CatalogModel {
        CatalogModel {
            deadline: self.deadline,
            catalog: catalog_model(self.catalog),
            statuses: status_models(self.statuses@),
            error: crate::credential::text_of_option(self.error),
        }
    }
}

impl CatalogModel {
    /// The wait after an event; it is over where the result is `None`.
    pub open spec fn hears(self, event: NewsModel) -> Option<CatalogModel> {
        match event {
            NewsModel::ConnectionFailed { attempt, code, message, retry_after } => Some(
                CatalogModel { error: Some("["@ + code.text() + "] "@ + message), ..self },
            ),
            NewsModel::Hosts { catalog_version, hosts } => Some(
                CatalogModel { catalog: Some((hosts, catalog_version)), ..self },
            ),
            NewsModel::Statuses { catalog_version, statuses } => Some(
                CatalogModel { statuses: merged(self.statuses, statuses), ..self },
            ),
            NewsModel::Error(text) => Some(CatalogModel { error: Some(text), ..self }),
            NewsModel::Disconnected => None,
            _ => Some(self),
        }
    }

    /// The catalogue is there, with a state for each of its hosts.
    pub open spec fn is_whole(self) -> bool {
        self.catalog is Some && ((self.catalog->0).0.len() == 0 || self.statuses.len() >= (
        self.catalog->0).0.len())
    }
}

impl CatalogWait {
    pub fn new(now: u64) -> (r: CatalogWait)
        requires
            now <= CLOCK_END,
        ensures
            r@ == (CatalogModel {
                deadline: (now + CATALOG_TIMEOUT) as u64,
                catalog: None,
                statuses: Seq::empty(),
                error: None,
            }),
    {
        let r = CatalogWait {
            deadline: now + CATALOG_TIMEOUT,
            catalog: None,
            statuses: Vec::new(),
            error: None,
        };
        assert(r@.statuses =~= Seq::<StatusModel>::empty());
        r
    }

    #[verifier::loop_isolation(false)]
    fn merge(&mut self, statuses: &Vec<HostStatus>)
        ensures
            final(self)@ == (CatalogModel {
                statuses: merged(old(self)@.statuses, status_models(statuses@)),
                ..old(self)@
            }),
    {
        let ghost before = self@;
        let ghost all = status_models(statuses@);
        let mut i: usize = 0;
        assert(all.take(0) =~= Seq::<StatusModel>::empty());
        while i < statuses.len()
            invariant
                i <= statuses@.len(),
                self@ == (CatalogModel {
                    statuses: merged(before.statuses, all.take(i as int)),
                    ..before
                }),
            decreases statuses@.len() - i,
        {
            assert(all.take(i + 1).drop_last() =~= all.take(i as int));
            assert(all.take(i + 1).last() == statuses@[i as int]@);
            put_status(&mut self.statuses, statuses[i].clone());
            i += 1;
        }
        assert(all.take(i as int) =~= all);
    }

    /// Takes an event in; the result is false where the wait is over because the
    /// connection is.
    pub fn hear(&mut self, event: &ClientEvent) -> (r: bool)
        ensures
            match old(self)@.hears(event@) {
                Some(after) => r && final(self)@ == after,
                None => !r && final(self)@ == old(self)@,
            },
    {
        match event {
            ClientEvent::ConnectionFailed { code, message, .. } => {
                let mut text: String = joined("[", code.as_str());
                text.append("] ");
                text.append(message);
                self.error = Some(text);
            },
            ClientEvent::Hosts { catalog_version, hosts } => {
                let copy: Vec<HostSummary> = hosts.clone();
                assert(copy@ =~= hosts@);
                self.catalog = Some((copy, *catalog_version));
            },
            ClientEvent::Statuses { statuses, .. } => {
                self.merge(statuses);
            },
            ClientEvent::Error(text) => {
                self.error = Some(text.clone());
            },
            ClientEvent::Disconnected => {
                return false;
            },
            _ => {},
        }
        true
    }

    /// Decides whether the wait is over.
    pub fn tick(&self, now: u64) -> (r: CatalogStep)
        ensures
            ({
                let is = self@;
                if is.is_whole() || (now >= is.deadline && is.catalog is Some) {
                    r is Ready && crate::credential::text_of_option(r->Ready_0) == is.error
                } else if now >= is.deadline {
                    r is Fail && r->Fail_0@ == match is.error {
                        Some(text) => "连接失败: "@ + text,
                        None => "等待主机目录超时"@,
                    }
                } else {
                    r is Wait
                }
            }),
    {
        if let Some((hosts, _)) = &self.catalog {
            assert(summary_models(hosts@).len() == hosts@.len());
            assert(status_models(self.statuses@).len() == self.statuses@.len());
            if hosts.len() == 0 || self.statuses.len() >= hosts.len() || now >= self.deadline {
                return CatalogStep::Ready(copy_error(&self.error));
            }
        }
        if now >= self.deadline {
            return CatalogStep::Fail(
                match &self.error {
                    Some(text) => joined("连接失败: ", text),
                    None => "等待主机目录超时".to_owned(),
                },
            );
        }
        CatalogStep::Wait
    }
}

fn copy_error(error: &Option<String>) -> (r: Option<String>)
    ensures
        crate::credential::text_of_option(r) == crate::credential::text_of_option(*error),
{
    match error {
        Some(text) => Some(text.clone()),
        None => None,
    }
}

#[verifier::loop_isolation(false)]
fn put_status(statuses: &mut Vec<HostStatus>, status: HostStatus)
    ensures
        status_models(final(statuses)@) == replaced(status_models(old(statuses)@), status@),
{
    let ghost before = status_models(statuses@);
    let mut out: Vec<HostStatus> = Vec::new();
    let mut found: bool = false;
    let mut i: usize = 0;
    while i < statuses.len()
        invariant
            i == out@.len() <= statuses@.len(),
            status_models(statuses@) == before,
            found == (exists|k: int|
                0 <= k < i && #[trigger] before[k].host_id == status@.host_id),
            forall|k: int|
                0 <= k < i ==> (#[trigger] out@[k])@ == if before[k].host_id == status@.host_id {
                    status@
                } else {
                    before[k]
                },
        decreases statuses@.len() - i,
    {
        assert(before[i as int] == statuses@[i as int]@);
        if statuses[i].host_id == status.host_id {
            out.push(status.clone());
            found = true;
            assert(before[i as int].host_id == status@.host_id);
        } else {
            out.push(statuses[i].clone());
        }
        i += 1;
    }
    if found {
        assert(status_models(out@) =~= replaced(before, status@));
    } else {
        assert(status_models(out@) =~= before);
        let ghost old_out = status_models(out@);
        out.push(status);
        assert(status_models(out@) =~= old_out.push(status@));
    }
    *statuses = out;
}

/// A wake is never sent a third time: after the second attempt it is done, has
/// failed, or is waited for.
pub proof fn a_wake_is_sent_at_most_twice(session: WakeSessionModel, now: u64)
    requires
        session.attempt == 2,
    ensures
        session.failed(now) is Some || session.progress.outcome(id_set(session.targets))
            == Outcome::Complete || now < if session.receipt {
            session.progress.deadline
        } else {
            session.receipt_deadline
        },
{
}

} // verus!
