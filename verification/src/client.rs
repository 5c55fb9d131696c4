//! The client's side of a connection: what it asks, what it believes, and when
//! it tries again.
//!
//! No message holds a hardware address, an IP address or a command: the server
//! knows hosts by identifiers alone.

use crate::clock::{elapsed, CLOCK_END, MILLISECOND, SECOND};
use crate::config::{check_endpoint, endpoint_fault};
use crate::credential::{ClientError, ClientFault};
use crate::crypto::random_16;
use crate::net::{ip_literal, parse_ip, IpAddress};
use crate::octets::{all_zero, is_zero, same_key};
use crate::policy::{id_set, push_contains, same_hosts};
use crate::protocol::{
    header_models, result_models, status_models, summary_models, ClientEnvelope, ClientOperation,
    ErrorCode, EventModel, Header, HeaderModel, HostStatus, HostSummary, ResultModel,
    ServerEnvelope, ServerEvent, StatusModel, WakeResult, MAX_STATUS_TARGETS, MAX_WAKE_TARGETS,
    PROTOCOL_VERSION,
};
use crate::request::{accepted_ids, same_headers};
use crate::security::SecurityError;
use crate::snapshot::BindAddress;
use crate::table::{kept, Key, Table};
use crate::text::{copy_texts, joined, listed, texts};
use vstd::prelude::*;

verus! {

pub const CLIENT_IDLE_TIMEOUT: u64 = 300 * SECOND;

pub const CONNECT_TIMEOUT: u64 = 5 * SECOND;

pub const RECEIPT_TIMEOUT: u64 = 15 * SECOND;

pub const WAKE_WAIT_TIMEOUT: u64 = 60 * SECOND;

pub const WAKE_WAIT_TIMEOUT_MS: u64 = 60_000;

pub const CLIENT_POLL_INTERVAL: u64 = 20 * MILLISECOND;

pub const MAX_PENDING_REQUESTS: usize = 16;

pub const MAX_PENDING_OPERATIONS: usize = 32;

pub const PENDING_OPERATION_TTL: u64 = 180 * SECOND;

pub const MAX_ENDPOINTS: usize = 16;

/// What the program asks of the client.
pub enum ClientCommand {
    Refresh,
    Wake {
        host_ids: Vec<String>,
        catalog_version: u64,
        operation_id: [u8; 16],
        boot_nonce: [u8; 16],
        attempt: u8,
        retry_ticket: Option<[u8; 32]>,
    },
    Shutdown,
}

/// Where a connection failed.
#[derive(Clone, Copy, Debug, PartialEq, Eq, Structural)]
pub enum ClientConnectionErrorCode {
    Resolve,
    Connect,
    Handshake,
    Transport,
    Protocol,
}

impl ClientConnectionErrorCode {
    pub open spec fn text(self) -> Seq<char> {
        match self {
            ClientConnectionErrorCode::Resolve => "NET-RESOLVE"@,
            ClientConnectionErrorCode::Connect => "NET-CONNECT"@,
            ClientConnectionErrorCode::Handshake => "SEC-HANDSHAKE"@,
            ClientConnectionErrorCode::Transport => "NET-TRANSPORT"@,
            ClientConnectionErrorCode::Protocol => "PROTO-STATE"@,
        }
    }

    pub fn as_str(self) -> (r: &'static str)
        ensures
            r@ == self.text(),
    {
        match self {
            ClientConnectionErrorCode::Resolve => "NET-RESOLVE",
            ClientConnectionErrorCode::Connect => "NET-CONNECT",
            ClientConnectionErrorCode::Handshake => "SEC-HANDSHAKE",
            ClientConnectionErrorCode::Transport => "NET-TRANSPORT",
            ClientConnectionErrorCode::Protocol => "PROTO-STATE",
        }
    }
}

/// What the client tells the program.
pub enum ClientEvent {
    Connecting { attempt: u32 },
    ConnectionFailed {
        attempt: u32,
        code: ClientConnectionErrorCode,
        message: String,
        retry_after: u64,
    },
    Connected { peer: String, server_fingerprint: String },
    Hosts { catalog_version: u64, hosts: Vec<HostSummary> },
    Statuses { catalog_version: u64, statuses: Vec<HostStatus> },
    CommandExecuted {
        operation_id: [u8; 16],
        attempt: u8,
        retry_ticket: [u8; 32],
        deadline_ms: u64,
        results: Vec<WakeResult>,
    },
    TargetOnline { operation_id: [u8; 16], attempt: u8, host_id: String },
    Error(String),
    Disconnected,
}

pub enum NewsModel {
    Connecting { attempt: u32 },
    ConnectionFailed {
        attempt: u32,
        code: ClientConnectionErrorCode,
        message: Seq<char>,
        retry_after: u64,
    },
    Connected { peer: Seq<char>, server_fingerprint: Seq<char> },
    Hosts { catalog_version: u64, hosts: Seq<Seq<char>> },
    Statuses { catalog_version: u64, statuses: Seq<StatusModel> },
    CommandExecuted {
        operation_id: [u8; 16],
        attempt: u8,
        retry_ticket: [u8; 32],
        deadline_ms: u64,
        results: Seq<ResultModel>,
    },
    TargetOnline { operation_id: [u8; 16], attempt: u8, host_id: Seq<char> },
    Error(Seq<char>),
    Disconnected,
}

impl View for ClientEvent {
    type V = NewsModel;

    open spec fn view(&self) -> NewsModel {
        match *self {
            ClientEvent::Connecting { attempt } => NewsModel::Connecting { attempt },
            ClientEvent::ConnectionFailed { attempt, code, message, retry_after } =>
                NewsModel::ConnectionFailed { attempt, code, message: message@, retry_after },
            ClientEvent::Connected { peer, server_fingerprint } => NewsModel::Connected {
                peer: peer@,
                server_fingerprint: server_fingerprint@,
            },
            ClientEvent::Hosts { catalog_version, hosts } => NewsModel::Hosts {
                catalog_version,
                hosts: summary_models(hosts@),
            },
            ClientEvent::Statuses { catalog_version, statuses } => NewsModel::Statuses {
                catalog_version,
                statuses: status_models(statuses@),
            },
            ClientEvent::CommandExecuted {
                operation_id,
                attempt,
                retry_ticket,
                deadline_ms,
                results,
            } => NewsModel::CommandExecuted {
                operation_id,
                attempt,
                retry_ticket,
                deadline_ms,
                results: result_models(results@),
            },
            ClientEvent::TargetOnline { operation_id, attempt, host_id } =>
                NewsModel::TargetOnline { operation_id, attempt, host_id: host_id@ },
            ClientEvent::Error(text) => NewsModel::Error(text@),
            ClientEvent::Disconnected => NewsModel::Disconnected,
        }
    }
}

/// A random identifier, never zero.
pub fn random_id() -> (r: [u8; 16])
    ensures
        !is_zero(r@),
{
    let mut id: [u8; 16] = random_16();
    if all_zero(&id) {
        id[0] = 1;
        assert(id@[0] == 1);
    }
    id
}

/// The pause after a failed attempt, in seconds.
pub open spec fn backoff(attempt: u32) -> int {
    if attempt <= 1 {
        2
    } else if attempt == 2 {
        5
    } else if attempt == 3 {
        10
    } else if attempt == 4 {
        20
    } else {
        30
    }
}

/// The pause after a failed attempt.
pub fn reconnect_delay(attempt: u32) -> (r: u64)
    ensures
        r == backoff(attempt) * SECOND,
{
    if attempt <= 1 {
        2 * SECOND
    } else if attempt == 2 {
        5 * SECOND
    } else if attempt == 3 {
        10 * SECOND
    } else if attempt == 4 {
        20 * SECOND
    } else {
        30 * SECOND
    }
}

/// The pause never shrinks from one attempt to the next, and is never longer
/// than half a minute.
pub proof fn backoff_grows_and_is_bounded(earlier: u32, later: u32)
    requires
        earlier <= later,
    ensures
        2 <= backoff(earlier) <= backoff(later) <= 30,
{
}

/// How an attempt to connect, or a connection, ended.
pub enum ActorOutcome {
    ResolveFailed(String),
    ConnectFailed(String),
    HandshakeFailed(String),
    /// A connection that had been established was lost.
    Lost(ClientConnectionErrorCode, String),
    Shutdown,
}

/// What the client does next: report, wait and try again, or stop.
pub enum ActorStep {
    Retry { event: ClientEvent, delay: u64, attempt: u32 },
    Stop,
}

/// What is told of a failed attempt. A lost connection counts as a first one.
pub open spec fn failure(attempt: u32, outcome: ActorOutcome) -> Option<NewsModel> {
    let told = |attempt: u32, code: ClientConnectionErrorCode, message: Seq<char>|
        NewsModel::ConnectionFailed {
            attempt,
            code,
            message,
            retry_after: (backoff(attempt) * SECOND) as u64,
        };
    match outcome {
        ActorOutcome::ResolveFailed(error) => Some(
            told(
                attempt,
                ClientConnectionErrorCode::Resolve,
                "无法解析服务端地址: "@ + error@,
            ),
        ),
        ActorOutcome::ConnectFailed(error) => Some(
            told(attempt, ClientConnectionErrorCode::Connect, "无法连接服务端: "@ + error@),
        ),
        ActorOutcome::HandshakeFailed(error) => Some(
            told(attempt, ClientConnectionErrorCode::Handshake, "安全握手失败: "@ + error@),
        ),
        ActorOutcome::Lost(code, message) => Some(told(1, code, message@)),
        ActorOutcome::Shutdown => None,
    }
}

/// Decides what the client does after an attempt.
pub fn actor_next(attempt: u32, outcome: ActorOutcome) -> (r: ActorStep)
    ensures
        match failure(attempt, outcome) {
            None => r is Stop,
            Some(news) => {
                let counted = if outcome is Lost {
                    1u32
                } else {
                    attempt
                };
                &&& r is Retry
                &&& r->event@ == news
                &&& r->delay == backoff(counted) * SECOND
                &&& r->attempt == if counted < u32::MAX {
                    (counted + 1) as u32
                } else {
                    u32::MAX
                }
            },
        },
{
    let (counted, code, message): (u32, ClientConnectionErrorCode, String) = match outcome {
        ActorOutcome::ResolveFailed(error) => (
            attempt,
            ClientConnectionErrorCode::Resolve,
            joined("无法解析服务端地址: ", &error),
        ),
        ActorOutcome::ConnectFailed(error) => (
            attempt,
            ClientConnectionErrorCode::Connect,
            joined("无法连接服务端: ", &error),
        ),
        ActorOutcome::HandshakeFailed(error) => (
            attempt,
            ClientConnectionErrorCode::Handshake,
            joined("安全握手失败: ", &error),
        ),
        ActorOutcome::Lost(code, message) => (1, code, message),
        ActorOutcome::Shutdown => {
            return ActorStep::Stop;
        },
    };
    let delay: u64 = reconnect_delay(counted);
    ActorStep::Retry {
        event: ClientEvent::ConnectionFailed {
            attempt: counted,
            code,
            message,
            retry_after: delay,
        },
        delay,
        attempt: counted.saturating_add(1),
    }
}

/// What is done with a command while there is no connection.
pub enum WaitStep {
    Stop,
    Ignore,
    Report(ClientEvent),
}

/// A wake is not sent, and not kept, while there is no connection.
pub fn command_while_waiting(command: &ClientCommand) -> (r: WaitStep)
    ensures
        match *command {
            ClientCommand::Shutdown => r is Stop,
            ClientCommand::Refresh => r is Ignore,
            ClientCommand::Wake { .. } => r is Report && r->Report_0@ == NewsModel::Error(
                "安全连接尚未建立，未发送唤醒请求"@,
            ),
        },
{
    match command {
        ClientCommand::Shutdown => WaitStep::Stop,
        ClientCommand::Refresh => WaitStep::Ignore,
        ClientCommand::Wake { .. } => WaitStep::Report(
            ClientEvent::Error("安全连接尚未建立，未发送唤醒请求".to_owned()),
        ),
    }
}

/// The end of a connection on which something went wrong; `text` says what.
pub fn transport_exit(error: SecurityError, text: &str) -> (r: ActorOutcome)
    ensures
        r is Lost,
        r->Lost_0 == if error is Protocol {
            ClientConnectionErrorCode::Protocol
        } else {
            ClientConnectionErrorCode::Transport
        },
        r->Lost_1@ == "安全连接中断: "@ + text@,
{
    let code: ClientConnectionErrorCode = match error {
        SecurityError::Protocol(_) => ClientConnectionErrorCode::Protocol,
        _ => ClientConnectionErrorCode::Transport,
    };
    ActorOutcome::Lost(code, joined("安全连接中断: ", text))
}

/// A connection is given up: so is the code, and what is told.
pub open spec fn is_lost(
    outcome: ActorOutcome,
    code: ClientConnectionErrorCode,
    text: Seq<char>,
) -> bool {
    outcome is Lost && outcome->Lost_0 == code && outcome->Lost_1@ == text
}

/// The end of a connection on which nothing was heard for too long.
pub fn idle_exit() -> (r: ActorOutcome)
    ensures
        is_lost(r, ClientConnectionErrorCode::Transport, "安全连接空闲超时"@),
{
    ActorOutcome::Lost(ClientConnectionErrorCode::Transport, "安全连接空闲超时".to_owned())
}

/// The end of a connection on which a message of the server was refused.
pub fn rejected_exit() -> (r: ActorOutcome)
    ensures
        is_lost(
            r,
            ClientConnectionErrorCode::Protocol,
            "服务端响应未通过协议状态校验"@,
        ),
{
    ActorOutcome::Lost(
        ClientConnectionErrorCode::Protocol,
        "服务端响应未通过协议状态校验".to_owned(),
    )
}

/// The addresses that a client connects to: not those that stand for no host or
/// for many.
pub open spec fn is_endpoint(ip: IpAddress) -> bool {
    !ip@.is_unspecified() && !ip@.is_multicast()
}

/// The address that a server is given by, where it is a literal; nothing where
/// its name has to be resolved.
pub fn endpoint_literal(address: &str, port: u16) -> (r: Result<Option<IpAddress>, ClientError>)
    ensures
        if port < 1024 || endpoint_fault(address@) is Some {
            r is Err && r->Err_0@ == ClientFault::Endpoint
        } else {
            match ip_literal(address@) {
                None => r is Ok && r->Ok_0 is None,
                Some(ip) => if ip.is_unspecified() || ip.is_multicast() {
                    r is Err && r->Err_0@ == ClientFault::Endpoint
                } else {
                    r is Ok && r->Ok_0 is Some && r->Ok_0->0@ == ip
                },
            }
        },
{
    if port < 1024 || check_endpoint(address).is_some() {
        return Err(ClientError::Endpoint);
    }
    match parse_ip(address) {
        Some(ip) => {
            if ip.is_unspecified() || ip.is_multicast() {
                Err(ClientError::Endpoint)
            } else {
                Ok(Some(ip))
            }
        },
        None => Ok(None),
    }
}

/// The usable addresses of a list, each once, the first sixteen.
pub open spec fn usable(resolved: Seq<BindAddress>) -> Seq<BindAddress>
    decreases resolved.len(),
{
    if resolved.len() == 0 {
        resolved
    } else {
        let front = usable(resolved.drop_last());
        let last = resolved.last();
        if is_endpoint(last.ip) && !front.contains(last) && front.len() < MAX_ENDPOINTS {
            front.push(last)
        } else {
            front
        }
    }
}

/// The addresses to try, of those that a name was resolved to.
#[verifier::loop_isolation(false)]
pub fn choose_endpoints(resolved: &Vec<BindAddress>) -> (r: Result<Vec<BindAddress>, ClientError>)
    ensures
        if usable(resolved@).len() == 0 {
            r is Err && r->Err_0@ == ClientFault::Endpoint
        } else {
            r is Ok && r->Ok_0@ == usable(resolved@)
        },
{
    let mut out: Vec<BindAddress> = Vec::new();
    let mut i: usize = 0;
    assert(resolved@.take(0) =~= Seq::<BindAddress>::empty());
    while i < resolved.len()
        invariant
            i <= resolved@.len(),
            out@ == usable(resolved@.take(i as int)),
        decreases resolved@.len() - i,
    {
        let next: BindAddress = resolved[i];
        assert(resolved@.take(i + 1).drop_last() =~= resolved@.take(i as int));
        let mut known: bool = false;
        let mut k: usize = 0;
        while k < out.len()
            invariant
                k <= out@.len(),
                known == out@.take(k as int).contains(next),
            decreases out@.len() - k,
        {
            assert(out@.take(k + 1) =~= out@.take(k as int).push(out@[k as int]));
            proof {
                if out@.take(k as int).contains(next) {
                    let j = choose|j: int| 0 <= j < k && out@.take(k as int)[j] == next;
                    assert(out@.take(k + 1)[j] == next);
                }
            }
            if out[k].ip.same(&next.ip) && out[k].port == next.port {
                assert(out@.take(k + 1)[k as int] == next);
                known = true;
            } else {
                assert(out@[k as int] != next);
            }
            k += 1;
        }
        assert(out@.take(k as int) =~= out@);
        if !next.ip.is_unspecified() && !next.ip.is_multicast() && !known && out.len()
            < MAX_ENDPOINTS {
            out.push(next);
        }
        i += 1;
    }
    assert(resolved@.take(i as int) =~= resolved@);
    if out.len() == 0 {
        Err(ClientError::Endpoint)
    } else {
        Ok(out)
    }
}

/// The time that may be spent on one address, of what is left for all: nothing
/// where none is left.
pub fn connect_budget(deadline: u64, now: u64, addresses_left: usize) -> (r: Option<u64>)
    requires
        addresses_left > 0,
    ensures
        r == if now >= deadline {
            None
        } else {
            Some(((deadline - now) / addresses_left as int) as u64)
        },
{
    if now >= deadline {
        None
    } else {
        Some((deadline - now) / addresses_left as u64)
    }
}

/// The sum, no more than the largest number.
pub open spec fn capped(a: int) -> int {
    if a > u64::MAX {
        u64::MAX as int
    } else if a < 0 {
        0
    } else {
        a
    }
}

/// The sighting of a host is believable: it is recent, not from the future, and
/// within the time that the receipt gave.
pub open spec fn is_believable(observed: u64, deadline: Option<u64>, now: u64, skew: u64) -> bool {
    let skew_ms = skew as int / MILLISECOND as int;
    &&& observed != 0
    &&& observed <= capped(now + skew_ms)
    &&& observed >= capped(now - capped(WAKE_WAIT_TIMEOUT_MS + skew_ms))
    &&& deadline is Some
    &&& observed <= deadline->0
    &&& now <= capped(deadline->0 + skew_ms)
}

pub fn observation_time_valid(observed: u64, deadline: Option<u64>, now: u64, skew: u64) -> (r: bool)
    ensures
        r == is_believable(observed, deadline, now, skew),
{
    let skew_ms: u64 = skew / MILLISECOND;
    let window: u64 = WAKE_WAIT_TIMEOUT_MS.saturating_add(skew_ms);
    if observed == 0 || observed > now.saturating_add(skew_ms) || observed < now.saturating_sub(
        window,
    ) {
        return false;
    }
    match deadline {
        Some(deadline) => observed <= deadline && now <= deadline.saturating_add(skew_ms),
        None => false,
    }
}

/// A wake that was sent, and what has come back.
pub struct PendingOperation {
    pub targets: Vec<String>,
    pub accepted_targets: Option<Vec<String>>,
    pub attempt: u8,
    pub ticket: Option<[u8; 32]>,
    pub receipt_seen: bool,
    pub online: Vec<String>,
    pub deadline_ms: Option<u64>,
    pub expires_at: u64,
}

pub struct OperationModel {
    pub targets: Set<Seq<char>>,
    pub accepted: Option<Set<Seq<char>>>,
    pub attempt: u8,
    pub ticket: Option<[u8; 32]>,
    pub receipt_seen: bool,
    pub online: Set<Seq<char>>,
    pub deadline_ms: Option<u64>,
    pub expires_at: u64,
}

impl View for PendingOperation {
    type V = OperationModel;

    open spec fn view(&self) -> OperationModel {
        OperationModel {
            targets: id_set(texts(self.targets@)),
            accepted: match self.accepted_targets {
                Some(list) => Some(id_set(texts(list@))),
                None => None,
            },
            attempt: self.attempt,
            ticket: self.ticket,
            receipt_seen: self.receipt_seen,
            online: id_set(texts(self.online@)),
            deadline_ms: self.deadline_ms,
            expires_at: self.expires_at,
        }
    }
}

/// A question that was asked and not answered.
pub enum PendingRequest {
    List,
    /// The states of some hosts; the others of the catalogue are asked next.
    Statuses { catalog_version: u64, host_ids: Vec<String>, remaining: Vec<String> },
}

pub enum RequestModel {
    List,
    Statuses { catalog_version: u64, hosts: Set<Seq<char>>, remaining: Seq<Seq<char>> },
}

impl View for PendingRequest {
    type V = RequestModel;

    open spec fn view(&self) -> RequestModel {
        match *self {
            PendingRequest::List => RequestModel::List,
            PendingRequest::Statuses { catalog_version, host_ids, remaining } =>
                RequestModel::Statuses {
                catalog_version,
                hosts: id_set(texts(host_ids@)),
                remaining: texts(remaining@),
            },
        }
    }
}

/// The state of a connected client.
pub struct ClientState {
    pub headers: Vec<Header>,
    pub clock_skew: u64,
    pub last_activity: u64,
    pub send_list: bool,
    pub pending: Table<[u8; 16], PendingOperation>,
    pub requests: Table<[u8; 16], PendingRequest>,
}

pub struct ClientModel {
    pub headers: Seq<HeaderModel>,
    pub clock_skew: u64,
    pub last_activity: u64,
    pub send_list: bool,
    pub pending: Map<[u8; 16], OperationModel>,
    pub requests: Map<[u8; 16], RequestModel>,
}

impl View for ClientState {
    type V = ClientModel;

    open spec fn view(&self) -> ClientModel {
        ClientModel {
            headers: header_models(self.headers@),
            clock_skew: self.clock_skew,
            last_activity: self.last_activity,
            send_list: self.send_list,
            pending: self.pending@.map_values(|p: PendingOperation| p@),
            requests: self.requests@.map_values(|q: PendingRequest| q@),
        }
    }
}

/// A message that asks something.
pub open spec fn is_message(
    envelope: ClientEnvelope,
    request_id: [u8; 16],
    now_ms: u64,
    headers: Seq<HeaderModel>,
) -> bool {
    &&& envelope.version == PROTOCOL_VERSION
    &&& envelope.request_id == request_id
    &&& envelope.issued_at_ms == now_ms
    &&& header_models(envelope.headers@) == headers
}

/// What is done with a command.
pub enum CommandStep {
    Stop,
    Quiet,
    Report(ClientEvent),
    Send(ClientEnvelope),
}

/// Why a wake is not sent.
pub open spec fn wake_refusal(
    state: ClientModel,
    targets: nat,
    operation_id: [u8; 16],
    attempt: u8,
) -> Option<Seq<char>> {
    if targets == 0 || targets > MAX_WAKE_TARGETS || is_zero(operation_id@) {
        Some("invalid wake request"@)
    } else if state.pending.len() >= MAX_PENDING_OPERATIONS && !state.pending.contains_key(
        operation_id,
    ) {
        Some("too many outstanding wake operations"@)
    } else if state.pending.contains_key(operation_id) && (attempt
        < state.pending[operation_id].attempt || (attempt == state.pending[operation_id].attempt
        && state.pending[operation_id].receipt_seen)) {
        Some("operation_id is already completed or out of order"@)
    } else {
        None
    }
}

/// A wake that has just been sent.
pub open spec fn sent_wake(
    targets: Set<Seq<char>>,
    attempt: u8,
    ticket: Option<[u8; 32]>,
    now: u64,
) -> OperationModel {
    OperationModel {
        targets,
        accepted: None,
        attempt,
        ticket,
        receipt_seen: false,
        online: Set::empty(),
        deadline_ms: None,
        expires_at: (now + PENDING_OPERATION_TTL) as u64,
    }
}

pub open spec fn is_list(request: RequestModel) -> bool {
    request is List
}

/// A question for the catalogue is open.
pub open spec fn list_is_open(requests: Map<[u8; 16], RequestModel>) -> bool {
    exists|id: [u8; 16]| #[trigger] requests.contains_key(id) && is_list(requests[id])
}

/// What is done about the catalogue.
pub enum ListStep {
    Quiet,
    /// Too much is open: tell, and give the connection up.
    Fail(ClientEvent, ActorOutcome),
    Send(ClientEnvelope),
}

fn texts_empty() -> (r: Vec<String>)
    ensures
        r@.len() == 0,
        id_set(texts(r@)) == Set::<Seq<char>>::empty(),
{
    let r: Vec<String> = Vec::new();
    assert(id_set(texts(r@)) =~= Set::<Seq<char>>::empty());
    r
}

impl ClientState {
    pub open spec fn wf(self) -> bool {
        &&& self.pending.wf()
        &&& self.requests.wf()
    }

    /// The state of a client that has just connected: it asks for the catalogue
    /// first.
    pub fn new(headers: Vec<Header>, clock_skew: u64, now: u64) -> (r: ClientState)
        ensures
            r.wf(),
            r@ == (ClientModel {
                headers: header_models(headers@),
                clock_skew,
                last_activity: now,
                send_list: true,
                pending: Map::empty(),
                requests: Map::empty(),
            }),
    {
        let r = ClientState {
            headers,
            clock_skew,
            last_activity: now,
            send_list: true,
            pending: Table::new(),
            requests: Table::new(),
        };
        assert(r@.pending =~= Map::<[u8; 16], OperationModel>::empty());
        assert(r@.requests =~= Map::<[u8; 16], RequestModel>::empty());
        r
    }

    /// Whether the connection has been idle for too long.
    pub fn is_idle(&self, now: u64) -> (r: bool)
        ensures
            r == (elapsed(self.last_activity, now) >= CLIENT_IDLE_TIMEOUT),
    {
        now.saturating_sub(self.last_activity) >= CLIENT_IDLE_TIMEOUT
    }

    /// Forgets wakes that are too old.
    pub fn expire(&mut self, now: u64)
        requires
            old(self).wf(),
        ensures
            final(self).wf(),
            final(self)@ == (ClientModel {
                pending: kept(
                    old(self)@.pending,
                    |id: [u8; 16], p: OperationModel| p.expires_at > now,
                ),
                ..old(self)@
            }),
    {
        let ghost before = self@;
        let alive = |id: &[u8; 16], p: &PendingOperation| -> (b: bool)
            ensures
                b == (now < p.expires_at),
            { now < p.expires_at };
        self.pending.retain(alive, Ghost(|id: [u8; 16], p: PendingOperation| p.expires_at > now));
        assert(self@.pending =~= kept(
            before.pending,
            |id: [u8; 16], p: OperationModel| p.expires_at > now,
        ));
    }

    fn message(&self, request_id: [u8; 16], operation: ClientOperation, now_ms: u64) -> (r:
        ClientEnvelope)
        ensures
            is_message(r, request_id, now_ms, self@.headers),
            r.operation == operation,
    {
        let headers: Vec<Header> = self.headers.clone();
        assert(headers@ =~= self.headers@);
        ClientEnvelope {
            version: PROTOCOL_VERSION,
            request_id,
            issued_at_ms: now_ms,
            headers,
            operation,
        }
    }

    /// Decides what is done with a command. A wake keeps its identifier when it
    /// is sent again, so that the server knows it.
    pub fn command(&mut self, command: ClientCommand, now: u64, now_ms: u64) -> (r: CommandStep)
        requires
            old(self).wf(),
            now <= CLOCK_END,
        ensures
            final(self).wf(),
            match command {
                ClientCommand::Shutdown => r is Stop && final(self)@ == old(self)@,
                ClientCommand::Refresh => r is Quiet && final(self)@ == (ClientModel {
                    send_list: true,
                    ..old(self)@
                }),
                ClientCommand::Wake {
                    host_ids,
                    catalog_version,
                    operation_id,
                    boot_nonce,
                    attempt,
                    retry_ticket,
                } => match wake_refusal(old(self)@, host_ids@.len(), operation_id, attempt) {
                    Some(text) => {
                        &&& r is Report && r->Report_0@ == NewsModel::Error(text)
                        &&& final(self)@ == old(self)@
                    },
                    None => {
                        &&& r is Send
                        &&& is_message(r->Send_0, operation_id, now_ms, old(self)@.headers)
                        &&& r->Send_0.operation.same(
                            ClientOperation::Wake {
                                catalog_version,
                                host_ids,
                                attempt,
                                boot_nonce,
                                retry_ticket,
                            },
                        )
                        &&& final(self)@ == (ClientModel {
                            pending: old(self)@.pending.insert(
                                operation_id,
                                sent_wake(
                                    id_set(texts(host_ids@)),
                                    attempt,
                                    retry_ticket,
                                    now,
                                ),
                            ),
                            last_activity: now,
                            ..old(self)@
                        })
                    },
                },
            },
    {
        let ghost before = self@;
        match command {
            ClientCommand::Shutdown => CommandStep::Stop,
            ClientCommand::Refresh => {
                self.send_list = true;
                CommandStep::Quiet
            },
            ClientCommand::Wake {
                host_ids,
                catalog_version,
                operation_id,
                boot_nonce,
                attempt,
                retry_ticket,
            } => {
                if host_ids.len() == 0 || host_ids.len() > MAX_WAKE_TARGETS || all_zero(
                    &operation_id,
                ) {
                    return CommandStep::Report(
                        ClientEvent::Error("invalid wake request".to_owned()),
                    );
                }
                assert(before.pending.dom() =~= self.pending@.dom());
                if self.pending.len() >= MAX_PENDING_OPERATIONS && !self.pending.contains(
                    &operation_id,
                ) {
                    return CommandStep::Report(
                        ClientEvent::Error("too many outstanding wake operations".to_owned()),
                    );
                }
                if let Some(existing) = self.pending.get(&operation_id) {
                    if attempt < existing.attempt || (attempt == existing.attempt
                        && existing.receipt_seen) {
                        return CommandStep::Report(
                            ClientEvent::Error(
                                "operation_id is already completed or out of order".to_owned(),
                            ),
                        );
                    }
                }
                let targets: Vec<String> = copy_texts(&host_ids);
                let envelope: ClientEnvelope = self.message(
                    operation_id,
                    ClientOperation::Wake {
                        catalog_version,
                        host_ids,
                        attempt,
                        boot_nonce,
                        retry_ticket,
                    },
                    now_ms,
                );
                let operation = PendingOperation {
                    targets,
                    accepted_targets: None,
                    attempt,
                    ticket: retry_ticket,
                    receipt_seen: false,
                    online: texts_empty(),
                    deadline_ms: None,
                    expires_at: now + PENDING_OPERATION_TTL,
                };
                let ghost model = operation@;
                self.pending.insert(operation_id, operation);
                self.last_activity = now;
                assert(self@.pending =~= before.pending.insert(operation_id, model));
                CommandStep::Send(envelope)
            },
        }
    }

    /// Asks for the catalogue, if that is wanted and not asked already.
    pub fn ask_list(&mut self, request_id: [u8; 16], now: u64, now_ms: u64) -> (r: ListStep)
        requires
            old(self).wf(),
        ensures
            final(self).wf(),
            ({
                let was = old(self)@;
                if !was.send_list {
                    r is Quiet && final(self)@ == was
                } else if list_is_open(was.requests) {
                    r is Quiet && final(self)@ == (ClientModel { send_list: false, ..was })
                } else if was.requests.len() >= MAX_PENDING_REQUESTS {
                    &&& r is Fail
                    &&& r->Fail_0@ == NewsModel::Error("too many outstanding requests"@)
                    &&& r->Fail_1 is Lost
                    &&& r->Fail_1->Lost_0 == ClientConnectionErrorCode::Protocol
                    &&& r->Fail_1->Lost_1@ == "客户端待处理请求超过安全上限"@
                    &&& final(self)@ == was
                } else {
                    &&& r is Send
                    &&& is_message(r->Send_0, request_id, now_ms, was.headers)
                    &&& r->Send_0.operation == ClientOperation::ListHosts
                    &&& final(self)@ == (ClientModel {
                        send_list: false,
                        last_activity: now,
                        requests: was.requests.insert(request_id, RequestModel::List),
                        ..was
                    })
                }
            }),
    {
        let ghost was = self@;
        if !self.send_list {
            return ListStep::Quiet;
        }
        let list = |id: &[u8; 16], q: &PendingRequest| -> (b: bool)
            ensures
                b == is_list(q@),
            {
                match q {
                    PendingRequest::List => true,
                    _ => false,
                }
            };
        let ghost lists = |id: [u8; 16], q: PendingRequest| is_list(q@);
        let open: usize = self.requests.count(list, Ghost(lists));
        let all: usize = self.requests.len();
        assert(was.requests.dom() =~= self.requests@.dom());
        let ghost those = kept(self.requests@, lists);
        proof {
            vstd::set_lib::lemma_len_subset(those.dom(), self.requests@.dom());
            if list_is_open(was.requests) {
                let id = choose|id: [u8; 16]| #[trigger]
                    was.requests.contains_key(id) && is_list(was.requests[id]);
                assert(those.dom().contains(id));
                if those.len() == 0 {
                    assert(those.dom() =~= Set::<[u8; 16]>::empty());
                }
            }
            if those.len() > 0 {
                let id = those.dom().choose();
                assert(those.dom().contains(id)) by {
                    if those.dom() =~= Set::<[u8; 16]>::empty() {
                    }
                }
                assert(was.requests.contains_key(id) && is_list(was.requests[id]));
            }
        }
        if open > 0 {
            self.send_list = false;
            return ListStep::Quiet;
        }
        if all >= MAX_PENDING_REQUESTS {
            return ListStep::Fail(
                ClientEvent::Error("too many outstanding requests".to_owned()),
                ActorOutcome::Lost(
                    ClientConnectionErrorCode::Protocol,
                    "客户端待处理请求超过安全上限".to_owned(),
                ),
            );
        }
        let envelope: ClientEnvelope = self.message(request_id, ClientOperation::ListHosts, now_ms);
        self.requests.insert(request_id, PendingRequest::List);
        self.send_list = false;
        self.last_activity = now;
        assert(self@.requests =~= was.requests.insert(request_id, RequestModel::List));
        ListStep::Send(envelope)
    }
}

/// What a client does with a message of the server.
pub enum Reaction {
    /// The message was not asked for or is not believable: close, tell the
    /// program, and give the connection up.
    Reject(ClientEvent, ActorOutcome),
    /// Tell the program, and ask on.
    Go(Vec<ClientEvent>, Option<ClientEnvelope>),
    /// Tell the program, and give the connection up: too much is open.
    Fail(Vec<ClientEvent>, ActorOutcome),
}

/// A question for the states of some hosts.
pub struct StatusAsk {
    pub catalog_version: u64,
    pub ids: Seq<Seq<char>>,
}

pub enum ReactionModel {
    Reject,
    Go(Seq<NewsModel>, Option<StatusAsk>),
    Fail(Seq<NewsModel>),
}

pub open spec fn news(events: Seq<ClientEvent>) -> Seq<NewsModel> {
    events.map_values(|e: ClientEvent| e@)
}

/// The question, if there is one, asks for the states of these hosts.
pub open spec fn asks(
    envelope: Option<ClientEnvelope>,
    ask: Option<StatusAsk>,
    request_id: [u8; 16],
    now_ms: u64,
    headers: Seq<HeaderModel>,
) -> bool {
    match (envelope, ask) {
        (Some(envelope), Some(ask)) => {
            &&& is_message(envelope, request_id, now_ms, headers)
            &&& envelope.operation is GetStatuses
            &&& envelope.operation->GetStatuses_catalog_version == ask.catalog_version
            &&& texts(envelope.operation->GetStatuses_host_ids@) == ask.ids
        },
        (None, None) => true,
        _ => false,
    }
}

/// The connection is given up over a message of the server.
pub open spec fn is_given_up(outcome: ActorOutcome) -> bool {
    is_lost(
        outcome,
        ClientConnectionErrorCode::Protocol,
        "服务端响应未通过协议状态校验"@,
    )
}

/// What is told of a message that is refused.
pub open spec fn refusal() -> NewsModel {
    NewsModel::Error("invalid or unsolicited server response"@)
}

fn reject() -> (r: Reaction)
    ensures
        r is Reject,
        r->Reject_0@ == refusal(),
        is_given_up(r->Reject_1),
{
    Reaction::Reject(
        ClientEvent::Error("invalid or unsolicited server response".to_owned()),
        rejected_exit(),
    )
}

/// The reaction is the one stated.
pub open spec fn is_reaction(
    reaction: Reaction,
    stated: ReactionModel,
    request_id: [u8; 16],
    now_ms: u64,
    headers: Seq<HeaderModel>,
) -> bool {
    match (reaction, stated) {
        (Reaction::Reject(event, outcome), ReactionModel::Reject) => event@ == refusal()
            && is_given_up(outcome),
        (Reaction::Go(events, envelope), ReactionModel::Go(told, ask)) => news(events@) == told
            && asks(envelope, ask, request_id, now_ms, headers),
        (Reaction::Fail(events, outcome), ReactionModel::Fail(told)) => news(events@) == told
            && is_given_up(outcome),
        _ => false,
    }
}

/// The first hosts of a list, as many as one question takes.
pub open spec fn first_batch(ids: Seq<Seq<char>>) -> Seq<Seq<char>> {
    if ids.len() <= MAX_STATUS_TARGETS {
        ids
    } else {
        ids.take(MAX_STATUS_TARGETS as int)
    }
}

pub open spec fn other_batches(ids: Seq<Seq<char>>) -> Seq<Seq<char>> {
    if ids.len() <= MAX_STATUS_TARGETS {
        Seq::empty()
    } else {
        ids.skip(MAX_STATUS_TARGETS as int)
    }
}

/// Asks for the states of the first of the hosts; `failed` is what is told where
/// too much is open.
pub open spec fn ask_on(
    state: ClientModel,
    told: Seq<NewsModel>,
    failed: Seq<NewsModel>,
    catalog_version: u64,
    ids: Seq<Seq<char>>,
    request_id: [u8; 16],
) -> (ReactionModel, ClientModel) {
    if state.requests.len() >= MAX_PENDING_REQUESTS {
        (ReactionModel::Fail(failed), state)
    } else {
        (
            ReactionModel::Go(told, Some(StatusAsk { catalog_version, ids: first_batch(ids) })),
            ClientModel {
                requests: state.requests.insert(
                    request_id,
                    RequestModel::Statuses {
                        catalog_version,
                        hosts: id_set(first_batch(ids)),
                        remaining: other_batches(ids),
                    },
                ),
                ..state
            },
        )
    }
}

pub open spec fn nothing_asked(told: NewsModel, state: ClientModel) -> (ReactionModel, ClientModel) {
    (ReactionModel::Go(seq![told], None), state)
}

/// What is done with a catalogue: it must have been asked for. The question is
/// closed in any case. The states of the hosts are asked for next.
pub open spec fn hear_hosts(
    state: ClientModel,
    request_id: [u8; 16],
    catalog_version: u64,
    hosts: Seq<Seq<char>>,
    fresh: [u8; 16],
) -> (ReactionModel, ClientModel) {
    let told = NewsModel::Hosts { catalog_version, hosts };
    let left = ClientModel { requests: state.requests.remove(request_id), ..state };
    if !state.requests.contains_key(request_id) || !is_list(state.requests[request_id]) {
        (ReactionModel::Reject, left)
    } else {
        if hosts.len() == 0 {
            (
                ReactionModel::Go(
                    seq![
                        told,
                        NewsModel::Statuses { catalog_version, statuses: Seq::empty() },
                    ],
                    None,
                ),
                left,
            )
        } else {
            ask_on(
                left,
                seq![told],
                seq![told, NewsModel::Error("failed to request host status"@)],
                catalog_version,
                hosts,
                fresh,
            )
        }
    }
}

pub open spec fn status_ids(statuses: Seq<StatusModel>) -> Seq<Seq<char>> {
    statuses.map_values(|s: StatusModel| s.host_id)
}

pub open spec fn result_ids(results: Seq<ResultModel>) -> Seq<Seq<char>> {
    results.map_values(|r: ResultModel| r.host_id)
}

/// What is done with the states of hosts: they must be those that were asked for.
/// The question is closed in any case.
pub open spec fn hear_statuses(
    state: ClientModel,
    request_id: [u8; 16],
    catalog_version: u64,
    statuses: Seq<StatusModel>,
    fresh: [u8; 16],
) -> (ReactionModel, ClientModel) {
    let told = NewsModel::Statuses { catalog_version, statuses };
    let left = ClientModel { requests: state.requests.remove(request_id), ..state };
    if !state.requests.contains_key(request_id) {
        (ReactionModel::Reject, left)
    } else {
        match state.requests[request_id] {
            RequestModel::List => (ReactionModel::Reject, left),
            RequestModel::Statuses { catalog_version: expected, hosts, remaining } => {
                if expected != catalog_version || id_set(status_ids(statuses)) != hosts {
                    (ReactionModel::Reject, left)
                } else {
                    if remaining.len() == 0 {
                        nothing_asked(told, left)
                    } else {
                        ask_on(left, seq![told], seq![told], catalog_version, remaining, fresh)
                    }
                }
            },
        }
    }
}

/// The receipt answers the wake: its attempt, its ticket, its hosts, and a time
/// that can be.
pub open spec fn is_receipt_of(
    operation: OperationModel,
    attempt: u8,
    ticket: [u8; 32],
    deadline_ms: u64,
    results: Seq<ResultModel>,
    now_ms: u64,
    skew: u64,
) -> bool {
    let skew_ms = skew as int / MILLISECOND as int;
    &&& attempt == operation.attempt
    &&& attempt == 2 ==> operation.ticket == Some(ticket)
    &&& capped(now_ms - skew_ms) <= deadline_ms
    &&& deadline_ms <= capped(capped(now_ms + WAKE_WAIT_TIMEOUT_MS) + skew_ms)
    &&& id_set(result_ids(results)) == operation.targets
}

/// What is done with a receipt. A receipt that was seen is not told again.
pub open spec fn hear_receipt(
    state: ClientModel,
    request_id: [u8; 16],
    operation_id: [u8; 16],
    attempt: u8,
    ticket: [u8; 32],
    deadline_ms: u64,
    results: Seq<ResultModel>,
    now_ms: u64,
) -> (ReactionModel, ClientModel) {
    if !state.pending.contains_key(operation_id) || request_id != operation_id || !is_receipt_of(
        state.pending[operation_id],
        attempt,
        ticket,
        deadline_ms,
        results,
        now_ms,
        state.clock_skew,
    ) {
        (ReactionModel::Reject, state)
    } else {
        let operation = state.pending[operation_id];
        if operation.receipt_seen {
            (
                ReactionModel::Go(Seq::empty(), None),
                ClientModel {
                    pending: state.pending.insert(
                        operation_id,
                        OperationModel { deadline_ms: Some(deadline_ms), ..operation },
                    ),
                    ..state
                },
            )
        } else {
            nothing_asked(
                NewsModel::CommandExecuted {
                    operation_id,
                    attempt,
                    retry_ticket: ticket,
                    deadline_ms,
                    results,
                },
                ClientModel {
                    pending: state.pending.insert(
                        operation_id,
                        OperationModel {
                            ticket: if attempt == 1 {
                                Some(ticket)
                            } else {
                                operation.ticket
                            },
                            accepted: Some(id_set(accepted_ids(results))),
                            receipt_seen: true,
                            deadline_ms: Some(deadline_ms),
                            ..operation
                        },
                    ),
                    ..state
                },
            )
        }
    }
}

/// The sighting belongs to the wake: its attempt, and a host that its receipt
/// accepted.
pub open spec fn is_sighting_of(
    operation: OperationModel,
    attempt: u8,
    host_id: Seq<char>,
    observed_at_ms: u64,
    now_ms: u64,
    skew: u64,
) -> bool {
    &&& attempt == operation.attempt
    &&& operation.receipt_seen
    &&& operation.accepted is Some
    &&& operation.accepted->0.contains(host_id)
    &&& is_believable(observed_at_ms, operation.deadline_ms, now_ms, skew)
}

/// What is done with a sighting. A host that was seen is not told again.
pub open spec fn hear_online(
    state: ClientModel,
    request_id: [u8; 16],
    operation_id: [u8; 16],
    attempt: u8,
    host_id: Seq<char>,
    observed_at_ms: u64,
    now_ms: u64,
) -> (ReactionModel, ClientModel) {
    if !state.pending.contains_key(operation_id) || request_id != operation_id || !is_sighting_of(
        state.pending[operation_id],
        attempt,
        host_id,
        observed_at_ms,
        now_ms,
        state.clock_skew,
    ) {
        (ReactionModel::Reject, state)
    } else {
        let operation = state.pending[operation_id];
        if operation.online.contains(host_id) {
            (ReactionModel::Go(Seq::empty(), None), state)
        } else {
            nothing_asked(
                NewsModel::TargetOnline { operation_id, attempt, host_id },
                ClientModel {
                    pending: state.pending.insert(
                        operation_id,
                        OperationModel { online: operation.online.insert(host_id), ..operation },
                    ),
                    ..state
                },
            )
        }
    }
}

/// The name of an error code.
pub open spec fn code_name(code: ErrorCode) -> Seq<char> {
    match code {
        ErrorCode::BadRequest => "BadRequest"@,
        ErrorCode::Unauthorized => "Unauthorized"@,
        ErrorCode::Replay => "Replay"@,
        ErrorCode::RateLimited => "RateLimited"@,
        ErrorCode::StaleCatalog => "StaleCatalog"@,
        ErrorCode::Busy => "Busy"@,
        ErrorCode::Internal => "Internal"@,
    }
}

fn name_of_code(code: ErrorCode) -> (r: &'static str)
    ensures
        r@ == code_name(code),
{
    match code {
        ErrorCode::BadRequest => "BadRequest",
        ErrorCode::Unauthorized => "Unauthorized",
        ErrorCode::Replay => "Replay",
        ErrorCode::RateLimited => "RateLimited",
        ErrorCode::StaleCatalog => "StaleCatalog",
        ErrorCode::Busy => "Busy",
        ErrorCode::Internal => "Internal",
    }
}

/// What is told of an error of the server.
pub open spec fn error_text(code: ErrorCode, retryable: bool) -> Seq<char> {
    "server error: "@ + code_name(code) + " (retryable="@ + if retryable {
        "true"@
    } else {
        "false"@
    } + ")"@
}

/// What is done with an error: it must answer something that was asked.
pub open spec fn hear_error(
    state: ClientModel,
    request_id: [u8; 16],
    code: ErrorCode,
    retryable: bool,
) -> (ReactionModel, ClientModel) {
    if state.requests.contains_key(request_id) || state.pending.contains_key(request_id) {
        nothing_asked(
            NewsModel::Error(error_text(code, retryable)),
            ClientModel { requests: state.requests.remove(request_id), ..state },
        )
    } else {
        (ReactionModel::Reject, state)
    }
}

/// What is done with a message of the server.
pub open spec fn hear(
    state: ClientModel,
    message: crate::protocol::ReplyModel,
    fresh: [u8; 16],
    now_ms: u64,
) -> (ReactionModel, ClientModel) {
    let id = message.request_id;
    if message.headers != state.headers || !crate::handshake::in_skew(
        message.issued_at_ms,
        now_ms,
        state.clock_skew,
    ) {
        (ReactionModel::Reject, state)
    } else {
        match message.event {
            EventModel::Hosts { catalog_version, hosts } => hear_hosts(
                state,
                id,
                catalog_version,
                hosts,
                fresh,
            ),
            EventModel::Statuses { catalog_version, statuses } => hear_statuses(
                state,
                id,
                catalog_version,
                statuses,
                fresh,
            ),
            EventModel::CommandExecuted {
                operation_id,
                attempt,
                retry_ticket,
                deadline_ms,
                results,
            } => hear_receipt(
                state,
                id,
                operation_id,
                attempt,
                retry_ticket,
                deadline_ms,
                results,
                now_ms,
            ),
            EventModel::TargetOnline { operation_id, attempt, host_id, observed_at_ms } =>
                hear_online(
                state,
                id,
                operation_id,
                attempt,
                host_id,
                observed_at_ms,
                now_ms,
            ),
            EventModel::Error { code, retryable } => hear_error(state, id, code, retryable),
        }
    }
}

#[verifier::loop_isolation(false)]
fn summary_texts(hosts: &Vec<HostSummary>) -> (r: Vec<String>)
    ensures
        texts(r@) == summary_models(hosts@),
{
    let mut out: Vec<String> = Vec::new();
    let mut i: usize = 0;
    while i < hosts.len()
        invariant
            i == out@.len() <= hosts@.len(),
            forall|k: int| 0 <= k < i ==> (#[trigger] out@[k])@ == hosts@[k].host_id@,
        decreases hosts@.len() - i,
    {
        out.push(hosts[i].host_id.clone());
        i += 1;
    }
    assert(texts(out@) =~= summary_models(hosts@));
    out
}

#[verifier::loop_isolation(false)]
fn status_texts(statuses: &Vec<HostStatus>) -> (r: Vec<String>)
    ensures
        texts(r@) == status_ids(status_models(statuses@)),
{
    let mut out: Vec<String> = Vec::new();
    let mut i: usize = 0;
    while i < statuses.len()
        invariant
            i == out@.len() <= statuses@.len(),
            forall|k: int| 0 <= k < i ==> (#[trigger] out@[k])@ == statuses@[k].host_id@,
        decreases statuses@.len() - i,
    {
        out.push(statuses[i].host_id.clone());
        i += 1;
    }
    assert(texts(out@) =~= status_ids(status_models(statuses@)));
    out
}

#[verifier::loop_isolation(false)]
fn result_texts(results: &Vec<WakeResult>) -> (r: (Vec<String>, Vec<String>))
    ensures
        texts(r.0@) == result_ids(result_models(results@)),
        texts(r.1@) == accepted_ids(result_models(results@)),
{
    let ghost all = result_models(results@);
    let mut ids: Vec<String> = Vec::new();
    let mut accepted: Vec<String> = Vec::new();
    let mut i: usize = 0;
    assert(all.take(0) =~= Seq::<ResultModel>::empty());
    assert(texts(accepted@) =~= Seq::<Seq<char>>::empty());
    while i < results.len()
        invariant
            i == ids@.len() <= results@.len(),
            forall|k: int| 0 <= k < i ==> (#[trigger] ids@[k])@ == results@[k].host_id@,
            texts(accepted@) == accepted_ids(all.take(i as int)),
        decreases results@.len() - i,
    {
        assert(all.take(i + 1).drop_last() =~= all.take(i as int));
        assert(all.take(i + 1).last() == results@[i as int]@);
        ids.push(results[i].host_id.clone());
        if results[i].accepted {
            let ghost before = texts(accepted@);
            accepted.push(results[i].host_id.clone());
            assert(texts(accepted@) =~= before.push(all[i as int].host_id));
        }
        i += 1;
    }
    assert(all.take(i as int) =~= all);
    assert(texts(ids@) =~= result_ids(all));
    (ids, accepted)
}

/// The hosts of a list in two parts: the first batch and the others.
fn split_batch(ids: &Vec<String>) -> (r: (Vec<String>, Vec<String>))
    ensures
        texts(r.0@) == first_batch(texts(ids@)),
        texts(r.1@) == other_batches(texts(ids@)),
{
    let mut first: Vec<String> = copy_texts(ids);
    let rest: Vec<String> = if first.len() <= MAX_STATUS_TARGETS {
        Vec::new()
    } else {
        first.split_off(MAX_STATUS_TARGETS)
    };
    assert(texts(first@) =~= first_batch(texts(ids@)));
    assert(texts(rest@) =~= other_batches(texts(ids@)));
    (first, rest)
}

impl ClientState {
    fn go(event: ClientEvent) -> (r: Reaction)
        ensures
            r is Go,
            news(r->Go_0@) == seq![event@],
            r->Go_1 is None,
    {
        let mut events: Vec<ClientEvent> = Vec::new();
        events.push(event);
        assert(news(events@) =~= seq![event@]);
        Reaction::Go(events, None)
    }

    /// Asks for the states of the first of the hosts.
    fn ask_statuses(
        &mut self,
        told: Vec<ClientEvent>,
        failure: Option<String>,
        catalog_version: u64,
        ids: &Vec<String>,
        fresh: [u8; 16],
        now_ms: u64,
    ) -> (r: Reaction)
        requires
            old(self).wf(),
        ensures
            final(self).wf(),
            ({
                let failed = match failure {
                    Some(text) => news(told@).push(NewsModel::Error(text@)),
                    None => news(told@),
                };
                let stated = ask_on(
                    old(self)@,
                    news(told@),
                    failed,
                    catalog_version,
                    texts(ids@),
                    fresh,
                );
                &&& is_reaction(r, stated.0, fresh, now_ms, old(self)@.headers)
                &&& final(self)@ == stated.1
            }),
    {
        let ghost before = self@;
        assert(before.requests.dom() =~= self.requests@.dom());
        if self.requests.len() >= MAX_PENDING_REQUESTS {
            let ghost first = news(told@);
            let mut events: Vec<ClientEvent> = told;
            if let Some(text) = failure {
                events.push(ClientEvent::Error(text));
                assert(news(events@) =~= first.push(NewsModel::Error(text@)));
            }
            return Reaction::Fail(events, rejected_exit());
        }
        let (first, remaining): (Vec<String>, Vec<String>) = split_batch(ids);
        let envelope: ClientEnvelope = self.message(
            fresh,
            ClientOperation::GetStatuses { catalog_version, host_ids: copy_texts(&first) },
            now_ms,
        );
        let request = PendingRequest::Statuses { catalog_version, host_ids: first, remaining };
        let ghost model = request@;
        self.requests.insert(fresh, request);
        assert(self@.requests =~= before.requests.insert(fresh, model));
        Reaction::Go(told, Some(envelope))
    }

    fn hear_hosts(
        &mut self,
        request_id: [u8; 16],
        catalog_version: u64,
        hosts: Vec<HostSummary>,
        fresh: [u8; 16],
        now_ms: u64,
    ) -> (r: Reaction)
        requires
            old(self).wf(),
        ensures
            final(self).wf(),
            ({
                let stated = hear_hosts(
                    old(self)@,
                    request_id,
                    catalog_version,
                    summary_models(hosts@),
                    fresh,
                );
                &&& is_reaction(r, stated.0, fresh, now_ms, old(self)@.headers)
                &&& final(self)@ == stated.1
            }),
    {
        let ghost before = self@;
        let taken: Option<PendingRequest> = self.requests.take(&request_id);
        assert(self@.requests =~= before.requests.remove(request_id));
        match taken {
            Some(PendingRequest::List) => {},
            _ => {
                return reject();
            },
        }
        let ids: Vec<String> = summary_texts(&hosts);
        let empty: bool = hosts.len() == 0;
        let mut told: Vec<ClientEvent> = Vec::new();
        told.push(ClientEvent::Hosts { catalog_version, hosts });
        let ghost first = NewsModel::Hosts { catalog_version, hosts: summary_models(hosts@) };
        assert(news(told@) =~= seq![first]);
        if empty {
            let none: Vec<HostStatus> = Vec::new();
            assert(status_models(none@) =~= Seq::<StatusModel>::empty());
            told.push(ClientEvent::Statuses { catalog_version, statuses: none });
            assert(news(told@) =~= seq![
                first,
                NewsModel::Statuses { catalog_version, statuses: Seq::empty() },
            ]);
            return Reaction::Go(told, None);
        }
        assert(news(told@).push(NewsModel::Error("failed to request host status"@)) =~= seq![
            first,
            NewsModel::Error("failed to request host status"@),
        ]);
        self.ask_statuses(
            told,
            Some("failed to request host status".to_owned()),
            catalog_version,
            &ids,
            fresh,
            now_ms,
        )
    }

    fn hear_statuses(
        &mut self,
        request_id: [u8; 16],
        catalog_version: u64,
        statuses: Vec<HostStatus>,
        fresh: [u8; 16],
        now_ms: u64,
    ) -> (r: Reaction)
        requires
            old(self).wf(),
        ensures
            final(self).wf(),
            ({
                let stated = hear_statuses(
                    old(self)@,
                    request_id,
                    catalog_version,
                    status_models(statuses@),
                    fresh,
                );
                &&& is_reaction(r, stated.0, fresh, now_ms, old(self)@.headers)
                &&& final(self)@ == stated.1
            }),
    {
        let ghost before = self@;
        let taken: Option<PendingRequest> = self.requests.take(&request_id);
        assert(self@.requests =~= before.requests.remove(request_id));
        let remaining: Vec<String> = match taken {
            Some(PendingRequest::Statuses { catalog_version: expected, host_ids, remaining }) => {
                if expected != catalog_version || !same_hosts(
                    &status_texts(&statuses),
                    &host_ids,
                ) {
                    return reject();
                }
                remaining
            },
            _ => {
                return reject();
            },
        };
        let ghost first = NewsModel::Statuses {
            catalog_version,
            statuses: status_models(statuses@),
        };
        let event = ClientEvent::Statuses { catalog_version, statuses };
        if remaining.len() == 0 {
            assert(texts(remaining@).len() == 0);
            return ClientState::go(event);
        }
        let mut told: Vec<ClientEvent> = Vec::new();
        told.push(event);
        assert(news(told@) =~= seq![first]);
        self.ask_statuses(told, None, catalog_version, &remaining, fresh, now_ms)
    }

    fn hear_receipt(
        &mut self,
        request_id: [u8; 16],
        operation_id: [u8; 16],
        attempt: u8,
        ticket: [u8; 32],
        deadline_ms: u64,
        results: Vec<WakeResult>,
        fresh: [u8; 16],
        now_ms: u64,
    ) -> (r: Reaction)
        requires
            old(self).wf(),
        ensures
            final(self).wf(),
            ({
                let stated = hear_receipt(
                    old(self)@,
                    request_id,
                    operation_id,
                    attempt,
                    ticket,
                    deadline_ms,
                    result_models(results@),
                    now_ms,
                );
                &&& is_reaction(r, stated.0, fresh, now_ms, old(self)@.headers)
                &&& final(self)@ == stated.1
            }),
    {
        let ghost before = self@;
        let (ids, accepted): (Vec<String>, Vec<String>) = result_texts(&results);
        match self.pending.get(&operation_id) {
            Some(operation) => {
                let ticket_fits: bool = match &operation.ticket {
                    Some(known) => same_key(known, &ticket),
                    None => false,
                };
                let skew_ms: u64 = self.clock_skew / MILLISECOND;
                let latest: u64 = now_ms.saturating_add(WAKE_WAIT_TIMEOUT_MS).saturating_add(
                    skew_ms,
                );
                if !request_id.same(&operation_id) || attempt != operation.attempt || (attempt == 2
                    && !ticket_fits) || deadline_ms < now_ms.saturating_sub(skew_ms) || deadline_ms
                    > latest || !same_hosts(&ids, &operation.targets) {
                    return reject();
                }
            },
            None => {
                return reject();
            },
        }
        let mut operation: PendingOperation = match self.pending.take(&operation_id) {
            Some(operation) => operation,
            None => {
                return reject();
            },
        };
        let ghost was = operation@;
        let seen: bool = operation.receipt_seen;
        if !seen {
            if attempt == 1 {
                operation.ticket = Some(ticket);
            }
            operation.accepted_targets = Some(accepted);
            operation.receipt_seen = true;
        }
        operation.deadline_ms = Some(deadline_ms);
        let ghost model = operation@;
        self.pending.insert(operation_id, operation);
        assert(self@.pending =~= before.pending.insert(operation_id, model));
        if seen {
            let none: Vec<ClientEvent> = Vec::new();
            assert(news(none@) =~= Seq::<NewsModel>::empty());
            return Reaction::Go(none, None);
        }
        ClientState::go(
            ClientEvent::CommandExecuted {
                operation_id,
                attempt,
                retry_ticket: ticket,
                deadline_ms,
                results,
            },
        )
    }

    fn hear_online(
        &mut self,
        request_id: [u8; 16],
        operation_id: [u8; 16],
        attempt: u8,
        host_id: String,
        observed_at_ms: u64,
        fresh: [u8; 16],
        now_ms: u64,
    ) -> (r: Reaction)
        requires
            old(self).wf(),
        ensures
            final(self).wf(),
            ({
                let stated = hear_online(
                    old(self)@,
                    request_id,
                    operation_id,
                    attempt,
                    host_id@,
                    observed_at_ms,
                    now_ms,
                );
                &&& is_reaction(r, stated.0, fresh, now_ms, old(self)@.headers)
                &&& final(self)@ == stated.1
            }),
    {
        let ghost before = self@;
        match self.pending.get(&operation_id) {
            Some(operation) => {
                let accepted: bool = match &operation.accepted_targets {
                    Some(list) => listed(list, &host_id),
                    None => false,
                };
                if !request_id.same(&operation_id) || attempt != operation.attempt || !accepted
                    || !operation.receipt_seen || !observation_time_valid(
                    observed_at_ms,
                    operation.deadline_ms,
                    now_ms,
                    self.clock_skew,
                ) {
                    return reject();
                }
                if listed(&operation.online, &host_id) {
                    let none: Vec<ClientEvent> = Vec::new();
                    assert(news(none@) =~= Seq::<NewsModel>::empty());
                    return Reaction::Go(none, None);
                }
            },
            None => {
                return reject();
            },
        }
        let mut operation: PendingOperation = match self.pending.take(&operation_id) {
            Some(operation) => operation,
            None => {
                return reject();
            },
        };
        let ghost was = operation@;
        let ghost online = texts(operation.online@);
        operation.online.push(host_id.clone());
        assert(texts(operation.online@) =~= online.push(host_id@));
        proof {
            push_contains(online, host_id@);
        }
        assert(operation@.online =~= was.online.insert(host_id@));
        let ghost model = operation@;
        self.pending.insert(operation_id, operation);
        assert(self@.pending =~= before.pending.insert(operation_id, model));
        ClientState::go(ClientEvent::TargetOnline { operation_id, attempt, host_id })
    }

    /// Decides what is done with a valid message of the server. Nothing that was
    /// not asked for, or cannot be, is believed: the program is told so, and the
    /// connection is given up. `fresh` is the identifier for a further question.
    pub fn handle_server_event(
        &mut self,
        envelope: ServerEnvelope,
        fresh: [u8; 16],
        now_ms: u64,
    ) -> (r: Reaction)
        requires
            old(self).wf(),
        ensures
            final(self).wf(),
            is_reaction(
                r,
                hear(old(self)@, envelope@, fresh, now_ms).0,
                fresh,
                now_ms,
                old(self)@.headers,
            ),
            final(self)@ == hear(old(self)@, envelope@, fresh, now_ms).1,
    {
        if !same_headers(&envelope.headers, &self.headers) || !crate::handshake::within_skew(
            envelope.issued_at_ms,
            now_ms,
            self.clock_skew,
        ) {
            return reject();
        }
        let id: [u8; 16] = envelope.request_id;
        let ghost before = self@;
        match envelope.event {
            ServerEvent::Hosts { catalog_version, hosts } => self.hear_hosts(
                id,
                catalog_version,
                hosts,
                fresh,
                now_ms,
            ),
            ServerEvent::Statuses { catalog_version, statuses } => self.hear_statuses(
                id,
                catalog_version,
                statuses,
                fresh,
                now_ms,
            ),
            ServerEvent::CommandExecuted {
                operation_id,
                attempt,
                retry_ticket,
                deadline_ms,
                results,
            } => self.hear_receipt(
                id,
                operation_id,
                attempt,
                retry_ticket,
                deadline_ms,
                results,
                fresh,
                now_ms,
            ),
            ServerEvent::TargetOnline { operation_id, attempt, host_id, observed_at_ms } =>
                self.hear_online(
                id,
                operation_id,
                attempt,
                host_id,
                observed_at_ms,
                fresh,
                now_ms,
            ),
            ServerEvent::Error { code, retryable } => {
                let asked: bool = self.requests.contains(&id);
                let known: bool = asked || self.pending.contains(&id);
                if !known {
                    return reject();
                }
                let taken: Option<PendingRequest> = self.requests.take(&id);
                assert(self@.requests =~= before.requests.remove(id));
                let mut text: String = joined("server error: ", name_of_code(code));
                text.append(" (retryable=");
                text.append(
                    if retryable {
                        "true"
                    } else {
                        "false"
                    },
                );
                text.append(")");
                ClientState::go(ClientEvent::Error(text))
            },
        }
    }

    /// Notes that a message has come.
    pub fn heard(&mut self, now: u64)
        ensures
            final(self)@ == (ClientModel { last_activity: now, ..old(self)@ }),
            old(self).wf() ==> final(self).wf(),
    {
        self.last_activity = now;
    }
}

/// A sighting is told only for a host that the wake named and its receipt
/// accepted, and for each host once.
pub proof fn a_sighting_is_told_once(
    state: ClientModel,
    id: [u8; 16],
    attempt: u8,
    host_id: Seq<char>,
    observed_at_ms: u64,
    now_ms: u64,
    later_ms: u64,
)
    requires
        hear_online(state, id, id, attempt, host_id, observed_at_ms, now_ms).0 is Go,
    ensures
        state.pending.contains_key(id),
        state.pending[id].accepted is Some && state.pending[id].accepted->0.contains(host_id),
        ({
            let after = hear_online(state, id, id, attempt, host_id, observed_at_ms, now_ms).1;
            match hear_online(after, id, id, attempt, host_id, observed_at_ms, later_ms).0 {
                ReactionModel::Go(told, ask) => told.len() == 0 && ask is None,
                _ => true,
            }
        }),
{
}

/// A receipt is told once, however often it comes.
pub proof fn a_receipt_is_told_once(
    state: ClientModel,
    id: [u8; 16],
    attempt: u8,
    ticket: [u8; 32],
    deadline_ms: u64,
    results: Seq<ResultModel>,
    now_ms: u64,
    later_ms: u64,
)
    requires
        hear_receipt(state, id, id, attempt, ticket, deadline_ms, results, now_ms).0 is Go,
    ensures
        ({
            let after = hear_receipt(
                state,
                id,
                id,
                attempt,
                ticket,
                deadline_ms,
                results,
                now_ms,
            ).1;
            match hear_receipt(
                after,
                id,
                id,
                attempt,
                ticket,
                deadline_ms,
                results,
                later_ms,
            ).0 {
                ReactionModel::Go(told, ask) => told.len() == 0 && ask is None,
                _ => true,
            }
        }),
{
}

/// Nothing is believed that was not asked for: a catalogue, the states of hosts,
/// a receipt, a sighting or an error without an open question of that identifier
/// is rejected.
pub proof fn nothing_unasked_is_believed(
    state: ClientModel,
    message: crate::protocol::ReplyModel,
    fresh: [u8; 16],
    now_ms: u64,
)
    requires
        !state.requests.contains_key(message.request_id),
        !state.pending.contains_key(message.request_id),
    ensures
        hear(state, message, fresh, now_ms).0 == ReactionModel::Reject,
        hear(state, message, fresh, now_ms).1 == state,
{
    assert(state.requests.remove(message.request_id) =~= state.requests);
}

} // verus!
