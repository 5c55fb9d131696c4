//! Versioned, bounded application messages.
//!
//! This module has no sockets and no side effects. It is the only place that
//! defines operations which can cross the trust boundary.

use crate::octets::{all_zero, bytes_of, is_zero, same_id};
use crate::text::{
    alnum, before, before_is_strict, before_is_transitive, chars_of, copy_texts, digit, is_alnum, is_digit,
    is_lower, is_printable, lower, printable, starts_with, text_before, texts,
};
use vstd::prelude::*;

verus! {

pub const PROTOCOL_VERSION: u16 = 1;

pub const MAX_FRAME_BYTES: usize = 65536;

pub const MAX_HOSTS: usize = 64;

pub const MAX_REQUEST_TARGETS: usize = 128;

pub const MAX_STATUS_TARGETS: usize = 8;

pub const MAX_WAKE_TARGETS: usize = 64;

pub const MAX_HEADERS: usize = 32;

pub const MAX_HEADER_BYTES: usize = 4096;

pub const MAX_ID_BYTES: usize = 64;

#[derive(Clone, Copy, Debug, PartialEq, Eq, Structural)]
pub enum ProtocolError {
    Version,
    Limit,
    Identifier,
    Header,
    Operation,
}

impl ProtocolError {
    /// What is said of a message that is not valid.
    pub open spec fn text(self) -> Seq<char> {
        match self {
            ProtocolError::Version => "unsupported protocol version"@,
            ProtocolError::Limit => "message exceeds protocol limits"@,
            ProtocolError::Identifier => "invalid identifier"@,
            ProtocolError::Header => "invalid or duplicate header"@,
            ProtocolError::Operation => "invalid operation"@,
        }
    }

    pub fn as_str(self) -> (r: &'static str)
        ensures
            r@ == self.text(),
    {
        match self {
            ProtocolError::Version => "unsupported protocol version",
            ProtocolError::Limit => "message exceeds protocol limits",
            ProtocolError::Identifier => "invalid identifier",
            ProtocolError::Header => "invalid or duplicate header",
            ProtocolError::Operation => "invalid operation",
        }
    }
}

#[derive(PartialEq, Eq)]
pub struct Header {
    pub name: String,
    pub value: String,
}

/// What a header says.
pub struct HeaderModel {
    pub name: Seq<char>,
    pub value: Seq<char>,
}

impl View for Header {
    type V = HeaderModel;

    open spec fn view(&self) -> HeaderModel {
        HeaderModel { name: self.name@, value: self.value@ }
    }
}

pub open spec fn header_models(headers: Seq<Header>) -> Seq<HeaderModel> {
    headers.map_values(|h: Header| h@)
}

/// One to 32 small letters, digits and hyphens, with no hyphen at either end.
pub open spec fn is_header_name(name: Seq<char>) -> bool {
    &&& 0 < name.len() <= 32
    &&& is_alnum(name[0])
    &&& is_alnum(name.last())
    &&& forall|i: int| 0 <= i < name.len() ==> #[trigger] is_name_char(name[i])
}

pub open spec fn is_name_char(c: char) -> bool {
    is_lower(c) || is_digit(c) || c == '-'
}

/// One to 256 printable ASCII characters, with no space at either end.
pub open spec fn is_header_value(value: Seq<char>) -> bool {
    &&& 0 < value.len() <= 256
    &&& value[0] != ' '
    &&& value.last() != ' '
    &&& forall|i: int| 0 <= i < value.len() ==> #[trigger] is_printable(value[i])
}

/// Names that the protocol keeps for itself.
pub open spec fn is_reserved_name(name: Seq<char>) -> bool {
    "rop-"@.is_prefix_of(name) || "x-rop-"@.is_prefix_of(name)
}

pub open spec fn is_header(header: HeaderModel) -> bool {
    is_header_name(header.name) && is_header_value(header.value) && !is_reserved_name(header.name)
}

/// No two headers share a name.
pub open spec fn names_differ(headers: Seq<HeaderModel>) -> bool {
    forall|i: int, j: int|
        0 <= i < j < headers.len() ==> #[trigger] headers[i].name != #[trigger] headers[j].name
}

/// The size of all names and values together.
pub open spec fn header_bytes(headers: Seq<HeaderModel>) -> nat
    decreases headers.len(),
{
    if headers.len() == 0 {
        0
    } else {
        header_bytes(headers.drop_last()) + headers.last().name.len() + headers.last().value.len()
    }
}

/// The reason for which a list of headers is refused.
pub open spec fn headers_fault(headers: Seq<HeaderModel>) -> Option<ProtocolError> {
    if headers.len() > MAX_HEADERS {
        Some(ProtocolError::Limit)
    } else if (exists|i: int| 0 <= i < headers.len() && !is_header(#[trigger] headers[i]))
        || !names_differ(headers) {
        Some(ProtocolError::Header)
    } else if header_bytes(headers) > MAX_HEADER_BYTES {
        Some(ProtocolError::Limit)
    } else {
        None
    }
}

/// The headers stand in the strict order of their names.
pub open spec fn ascending(headers: Seq<HeaderModel>) -> bool {
    forall|i: int, j: int|
        0 <= i < j < headers.len() ==> before(
            #[trigger] headers[i].name,
            #[trigger] headers[j].name,
        )
}

/// An identifier: one to 64 small letters, digits, dots, underscores and
/// hyphens, with a letter or digit at either end.
pub open spec fn is_id(id: Seq<char>) -> bool {
    &&& 0 < id.len() <= MAX_ID_BYTES
    &&& is_alnum(id[0])
    &&& is_alnum(id.last())
    &&& forall|i: int| 0 <= i < id.len() ==> #[trigger] is_id_char(id[i])
}

pub open spec fn is_id_char(c: char) -> bool {
    is_lower(c) || is_digit(c) || c == '.' || c == '_' || c == '-'
}

#[verifier::loop_isolation(false)]
pub fn header_name(value: &str) -> (r: bool)
    ensures
        r == is_header_name(value@),
{
    let chars: Vec<char> = chars_of(value);
    let n: usize = chars.len();
    if n == 0 || n > 32 || !alnum(chars[0]) || !alnum(chars[n - 1]) {
        return false;
    }
    let mut i: usize = 0;
    while i < n
        invariant
            i <= n,
            forall|k: int| 0 <= k < i ==> is_name_char(chars@[k]),
        decreases n - i,
    {
        let c: char = chars[i];
        if !(lower(c) || digit(c) || c == '-') {
            assert(!is_name_char(value@[i as int]));
            return false;
        }
        i += 1;
    }
    true
}

#[verifier::loop_isolation(false)]
pub fn header_value(value: &str) -> (r: bool)
    ensures
        r == is_header_value(value@),
{
    let chars: Vec<char> = chars_of(value);
    let n: usize = chars.len();
    if n == 0 || n > 256 || chars[0] == ' ' || chars[n - 1] == ' ' {
        return false;
    }
    let mut i: usize = 0;
    while i < n
        invariant
            i <= n,
            forall|k: int| 0 <= k < i ==> is_printable(chars@[k]),
        decreases n - i,
    {
        if !printable(chars[i]) {
            assert(!is_printable(value@[i as int]));
            return false;
        }
        i += 1;
    }
    true
}

/// Checks an identifier.
#[verifier::loop_isolation(false)]
pub fn validate_id(value: &str) -> (r: Result<(), ProtocolError>)
    ensures
        r == if is_id(value@) {
            Ok(())
        } else {
            Err::<(), ProtocolError>(ProtocolError::Identifier)
        },
{
    let chars: Vec<char> = chars_of(value);
    let n: usize = chars.len();
    if n == 0 || n > MAX_ID_BYTES || !alnum(chars[0]) || !alnum(chars[n - 1]) {
        return Err(ProtocolError::Identifier);
    }
    let mut i: usize = 0;
    while i < n
        invariant
            i <= n,
            forall|k: int| 0 <= k < i ==> is_id_char(chars@[k]),
        decreases n - i,
    {
        let c: char = chars[i];
        if !(lower(c) || digit(c) || c == '.' || c == '_' || c == '-') {
            assert(!is_id_char(value@[i as int]));
            return Err(ProtocolError::Identifier);
        }
        i += 1;
    }
    Ok(())
}

/// The reason for which a list of headers is refused, if there is one.
#[verifier::loop_isolation(false)]
fn check_headers(headers: &Vec<Header>) -> (r: Option<ProtocolError>)
    ensures
        r == headers_fault(header_models(headers@)),
{
    if headers.len() > MAX_HEADERS {
        return Some(ProtocolError::Limit);
    }
    let ghost all = header_models(headers@);
    let n: usize = headers.len();
    let mut total: usize = 0;
    let mut i: usize = 0;
    while i < n
        invariant
            i <= n <= MAX_HEADERS,
            forall|k: int| 0 <= k < i ==> is_header(#[trigger] all[k]),
            names_differ(all.take(i as int)),
            total == header_bytes(all.take(i as int)),
            total <= i * 288,
        decreases n - i,
    {
        let name: &String = &headers[i].name;
        let value: &String = &headers[i].value;
        if !header_name(name) || !header_value(value) || starts_with(name, "rop-") || starts_with(
            name,
            "x-rop-",
        ) {
            assert(!is_header(all[i as int]));
            return Some(ProtocolError::Header);
        }
        let mut j: usize = 0;
        while j < i
            invariant
                j <= i,
                forall|k: int| 0 <= k < j ==> #[trigger] all[k].name != all[i as int].name,
            decreases i - j,
        {
            if headers[j].name == *name {
                assert(all[j as int].name == all[i as int].name);
                return Some(ProtocolError::Header);
            }
            j += 1;
        }
        assert(all.take(i + 1).drop_last() =~= all.take(i as int));
        assert(all.take(i + 1).last() == all[i as int]);
        total = total + name.as_str().unicode_len() + value.as_str().unicode_len();
        i += 1;
    }
    assert(all.take(n as int) =~= all);
    if total > MAX_HEADER_BYTES {
        return Some(ProtocolError::Limit);
    }
    None
}

/// Puts a list of headers into the strict order of their names, or refuses it.
#[verifier::loop_isolation(false)]
pub fn canonical_headers(headers: Vec<Header>) -> (r: Result<Vec<Header>, ProtocolError>)
    ensures
        match r {
            Ok(out) => {
                &&& headers_fault(header_models(headers@)) is None
                &&& ascending(header_models(out@))
                &&& header_models(out@).to_multiset() == header_models(headers@).to_multiset()
            },
            Err(fault) => headers_fault(header_models(headers@)) == Some(fault),
        },
{
    broadcast use vstd::seq_lib::group_to_multiset_ensures;

    if let Some(fault) = check_headers(&headers) {
        return Err(fault);
    }
    let ghost all = header_models(headers@);
    let mut rest: Vec<Header> = headers;
    let mut out: Vec<Header> = Vec::new();
    assert(header_models(out@) =~= Seq::<HeaderModel>::empty());
    while !rest.is_empty()
        invariant
            rest@.len() <= all.len(),
            header_models(rest@) == all.take(rest@.len() as int),
            header_models(out@).to_multiset() == all.skip(rest@.len() as int).to_multiset(),
            ascending(header_models(out@)),
        decreases rest@.len(),
    {
        let ghost whole = header_models(rest@);
        let header: Header = rest.remove(rest.len() - 1);
        let ghost sorted = header_models(out@);
        let ghost at = rest@.len() as int;
        assert(header@ == whole[at] && whole[at] == all[at]);
        assert(header_models(rest@) =~= all.take(at));
        assert forall|k: int| 0 <= k < sorted.len() implies #[trigger] sorted[k].name
            != header@.name by {
            assert(sorted.contains(sorted[k]));
            assert(sorted.to_multiset().count(sorted[k]) > 0);
            assert(all.skip(at + 1).contains(sorted[k]));
            let later = all.skip(at + 1);
            let j = choose|j: int| 0 <= j < later.len() && #[trigger] later[j] == sorted[k];
            assert(all[at + 1 + j] == sorted[k]);
        }
        let mut i: usize = 0;
        while i < out.len() && text_before(&out[i].name, &header.name)
            invariant
                i <= out@.len(),
                forall|k: int| 0 <= k < i ==> before(#[trigger] sorted[k].name, header@.name),
            decreases out@.len() - i,
        {
            i += 1;
        }
        assert forall|k: int| i <= k < sorted.len() implies before(
            header@.name,
            #[trigger] sorted[k].name,
        ) by {
            before_is_strict(header@.name, sorted[i as int].name);
            if k > i {
                before_is_transitive(header@.name, sorted[i as int].name, sorted[k].name);
            }
        }
        out.insert(i, header);
        assert(header_models(out@) =~= sorted.insert(i as int, all[at]));
        proof {
            vstd::seq_lib::to_multiset_insert(sorted, i as int, all[at]);
            vstd::seq_lib::to_multiset_insert(all.skip(at + 1), 0, all[at]);
        }
        assert(all.skip(at) =~= all.skip(at + 1).insert(0, all[at]));
    }
    assert(all.skip(0) =~= all);
    Ok(out)
}

/// Two lists in the strict order of their names that hold the same headers are
/// the same list.
pub proof fn ascending_is_unique(a: Seq<HeaderModel>, b: Seq<HeaderModel>)
    requires
        ascending(a),
        ascending(b),
        a.to_multiset() == b.to_multiset(),
    ensures
        a == b,
    decreases a.len(),
{
    broadcast use vstd::seq_lib::group_to_multiset_ensures;

    assert(a.len() == a.to_multiset().len() && b.len() == b.to_multiset().len());
    if a.len() > 0 {
        assert(a.to_multiset().count(a[0]) > 0);
        assert(b.to_multiset().count(b[0]) > 0);
        let i = choose|i: int| 0 <= i < b.len() && b[i] == a[0];
        let j = choose|j: int| 0 <= j < a.len() && a[j] == b[0];
        assert(a[0] == b[0]) by {
            before_is_strict(a[0].name, b[0].name);
            if i > 0 && j > 0 {
                assert(before(b[0].name, b[i].name));
                assert(before(a[0].name, a[j].name));
            }
        }
        assert(a.drop_first() =~= a.remove(0));
        assert(b.drop_first() =~= b.remove(0));
        assert(ascending(a.drop_first())) by {
            assert forall|i: int, j: int| 0 <= i < j < a.len() - 1 implies before(
                #[trigger] a.drop_first()[i].name,
                #[trigger] a.drop_first()[j].name,
            ) by {
                assert(a.drop_first()[i] == a[i + 1] && a.drop_first()[j] == a[j + 1]);
            }
        }
        assert(ascending(b.drop_first())) by {
            assert forall|i: int, j: int| 0 <= i < j < b.len() - 1 implies before(
                #[trigger] b.drop_first()[i].name,
                #[trigger] b.drop_first()[j].name,
            ) by {
                assert(b.drop_first()[i] == b[i + 1] && b.drop_first()[j] == b[j + 1]);
            }
        }
        ascending_is_unique(a.drop_first(), b.drop_first());
        assert(a =~= seq![a[0]] + a.drop_first());
        assert(b =~= seq![b[0]] + b.drop_first());
    } else {
        assert(a =~= b);
    }
}

#[derive(PartialEq, Eq)]
pub struct ClientEnvelope {
    pub version: u16,
    pub request_id: [u8; 16],
    pub issued_at_ms: u64,
    pub headers: Vec<Header>,
    pub operation: ClientOperation,
}

#[derive(PartialEq, Eq)]
pub enum ClientOperation {
    ListHosts,
    GetStatuses { catalog_version: u64, host_ids: Vec<String> },
    Wake {
        catalog_version: u64,
        host_ids: Vec<String>,
        attempt: u8,
        boot_nonce: [u8; 16],
        retry_ticket: Option<[u8; 32]>,
    },
}

#[derive(PartialEq, Eq)]
pub struct ServerEnvelope {
    pub version: u16,
    pub request_id: [u8; 16],
    pub issued_at_ms: u64,
    pub headers: Vec<Header>,
    pub event: ServerEvent,
}

#[derive(PartialEq, Eq)]
pub enum ServerEvent {
    Hosts { catalog_version: u64, hosts: Vec<HostSummary> },
    Statuses { catalog_version: u64, statuses: Vec<HostStatus> },
    /// The receipt of an executed wake. `deadline_ms` bounds the `TargetOnline`
    /// observations that follow; the client runs a timer of its own.
    CommandExecuted {
        operation_id: [u8; 16],
        attempt: u8,
        retry_ticket: [u8; 32],
        deadline_ms: u64,
        results: Vec<WakeResult>,
    },
    TargetOnline { operation_id: [u8; 16], attempt: u8, host_id: String, observed_at_ms: u64 },
    Error { code: ErrorCode, retryable: bool },
}

#[derive(Debug, PartialEq, Eq)]
pub struct HostSummary {
    pub host_id: String,
}

#[derive(Debug, PartialEq, Eq)]
pub struct HostStatus {
    pub host_id: String,
    pub state: HostState,
    pub observed_at_ms: u64,
}

#[derive(Clone, Copy, Debug, PartialEq, Eq, Structural)]
pub enum HostState {
    Online,
    Offline,
    Unknown,
    Waking,
    Succeeded,
    Failed,
}

#[derive(Debug, PartialEq, Eq)]
pub struct WakeResult {
    pub host_id: String,
    pub accepted: bool,
    pub error_code: Option<WakeErrorCode>,
}

#[derive(Clone, Copy, Debug, PartialEq, Eq, Structural)]
pub enum WakeErrorCode {
    InvalidTarget,
    RateLimited,
    SenderUnavailable,
    Internal,
}

#[derive(Clone, Copy, Debug, PartialEq, Eq, Structural)]
pub enum ErrorCode {
    BadRequest,
    Unauthorized,
    Replay,
    RateLimited,
    StaleCatalog,
    Busy,
    Internal,
}

/// What a host status says.
pub struct StatusModel {
    pub host_id: Seq<char>,
    pub state: HostState,
    pub observed_at_ms: u64,
}

/// What the result of one wake says.
pub struct ResultModel {
    pub host_id: Seq<char>,
    pub accepted: bool,
    pub error_code: Option<WakeErrorCode>,
}

/// What a server event says.
pub enum EventModel {
    Hosts { catalog_version: u64, hosts: Seq<Seq<char>> },
    Statuses { catalog_version: u64, statuses: Seq<StatusModel> },
    CommandExecuted {
        operation_id: [u8; 16],
        attempt: u8,
        retry_ticket: [u8; 32],
        deadline_ms: u64,
        results: Seq<ResultModel>,
    },
    TargetOnline { operation_id: [u8; 16], attempt: u8, host_id: Seq<char>, observed_at_ms: u64 },
    Error { code: ErrorCode, retryable: bool },
}

/// What a server message says.
pub struct ReplyModel {
    pub version: u16,
    pub request_id: [u8; 16],
    pub issued_at_ms: u64,
    pub headers: Seq<HeaderModel>,
    pub event: EventModel,
}

/// What a client operation says.
pub enum AskModel {
    ListHosts,
    GetStatuses { catalog_version: u64, host_ids: Seq<Seq<char>> },
    Wake {
        catalog_version: u64,
        host_ids: Seq<Seq<char>>,
        attempt: u8,
        boot_nonce: [u8; 16],
        retry_ticket: Option<[u8; 32]>,
    },
}

/// What a client message says.
pub struct MessageModel {
    pub version: u16,
    pub request_id: [u8; 16],
    pub issued_at_ms: u64,
    pub headers: Seq<HeaderModel>,
    pub operation: AskModel,
}

impl View for ClientOperation {
    type V = AskModel;

    open spec fn view(&self) -> AskModel {
        match *self {
            ClientOperation::ListHosts => AskModel::ListHosts,
            ClientOperation::GetStatuses { catalog_version, host_ids } => AskModel::GetStatuses {
                catalog_version,
                host_ids: texts(host_ids@),
            },
            ClientOperation::Wake {
                catalog_version,
                host_ids,
                attempt,
                boot_nonce,
                retry_ticket,
            } => AskModel::Wake {
                catalog_version,
                host_ids: texts(host_ids@),
                attempt,
                boot_nonce,
                retry_ticket,
            },
        }
    }
}

impl View for ClientEnvelope {
    type V = MessageModel;

    open spec fn view(&self) -> MessageModel {
        MessageModel {
            version: self.version,
            request_id: self.request_id,
            issued_at_ms: self.issued_at_ms,
            headers: header_models(self.headers@),
            operation: self.operation@,
        }
    }
}

impl View for HostSummary {
    type V = Seq<char>;

    open spec fn view(&self) -> Seq<char> {
        self.host_id@
    }
}

impl View for HostStatus {
    type V = StatusModel;

    open spec fn view(&self) -> StatusModel {
        StatusModel {
            host_id: self.host_id@,
            state: self.state,
            observed_at_ms: self.observed_at_ms,
        }
    }
}

impl View for WakeResult {
    type V = ResultModel;

    open spec fn view(&self) -> ResultModel {
        ResultModel {
            host_id: self.host_id@,
            accepted: self.accepted,
            error_code: self.error_code,
        }
    }
}

pub open spec fn summary_models(hosts: Seq<HostSummary>) -> Seq<Seq<char>> {
    hosts.map_values(|h: HostSummary| h@)
}

pub open spec fn status_models(statuses: Seq<HostStatus>) -> Seq<StatusModel> {
    statuses.map_values(|s: HostStatus| s@)
}

pub open spec fn result_models(results: Seq<WakeResult>) -> Seq<ResultModel> {
    results.map_values(|r: WakeResult| r@)
}

impl View for ServerEvent {
    type V = EventModel;

    open spec fn view(&self) -> EventModel {
        match *self {
            ServerEvent::Hosts { catalog_version, hosts } => EventModel::Hosts {
                catalog_version,
                hosts: summary_models(hosts@),
            },
            ServerEvent::Statuses { catalog_version, statuses } => EventModel::Statuses {
                catalog_version,
                statuses: status_models(statuses@),
            },
            ServerEvent::CommandExecuted {
                operation_id,
                attempt,
                retry_ticket,
                deadline_ms,
                results,
            } => EventModel::CommandExecuted {
                operation_id,
                attempt,
                retry_ticket,
                deadline_ms,
                results: result_models(results@),
            },
            ServerEvent::TargetOnline { operation_id, attempt, host_id, observed_at_ms } =>
                EventModel::TargetOnline {
                operation_id,
                attempt,
                host_id: host_id@,
                observed_at_ms,
            },
            ServerEvent::Error { code, retryable } => EventModel::Error { code, retryable },
        }
    }
}

impl View for ServerEnvelope {
    type V = ReplyModel;

    open spec fn view(&self) -> ReplyModel {
        ReplyModel {
            version: self.version,
            request_id: self.request_id,
            issued_at_ms: self.issued_at_ms,
            headers: header_models(self.headers@),
            event: self.event@,
        }
    }
}

impl Clone for Header {
    fn clone(&self) -> (r: Header)
        ensures
            r == *self,
    {
        Header { name: self.name.clone(), value: self.value.clone() }
    }
}

impl Clone for HostSummary {
    fn clone(&self) -> (r: HostSummary)
        ensures
            r == *self,
    {
        HostSummary { host_id: self.host_id.clone() }
    }
}

impl Clone for HostStatus {
    fn clone(&self) -> (r: HostStatus)
        ensures
            r == *self,
    {
        HostStatus {
            host_id: self.host_id.clone(),
            state: self.state,
            observed_at_ms: self.observed_at_ms,
        }
    }
}

impl Clone for WakeResult {
    fn clone(&self) -> (r: WakeResult)
        ensures
            r == *self,
    {
        WakeResult {
            host_id: self.host_id.clone(),
            accepted: self.accepted,
            error_code: self.error_code,
        }
    }
}

impl Clone for ClientOperation {
    fn clone(&self) -> (r: ClientOperation)
        ensures
            r.same(*self),
    {
        match self {
            ClientOperation::ListHosts => ClientOperation::ListHosts,
            ClientOperation::GetStatuses { catalog_version, host_ids } =>
                ClientOperation::GetStatuses {
                catalog_version: *catalog_version,
                host_ids: copy_texts(host_ids),
            },
            ClientOperation::Wake {
                catalog_version,
                host_ids,
                attempt,
                boot_nonce,
                retry_ticket,
            } => ClientOperation::Wake {
                catalog_version: *catalog_version,
                host_ids: copy_texts(host_ids),
                attempt: *attempt,
                boot_nonce: *boot_nonce,
                retry_ticket: *retry_ticket,
            },
        }
    }
}

impl ClientOperation {
    /// Both say the same.
    pub open spec fn same(self, other: ClientOperation) -> bool {
        match (self, other) {
            (ClientOperation::ListHosts, ClientOperation::ListHosts) => true,
            (
                ClientOperation::GetStatuses { catalog_version: v, host_ids: a },
                ClientOperation::GetStatuses { catalog_version: w, host_ids: b },
            ) => v == w && texts(a@) == texts(b@),
            (
                ClientOperation::Wake {
                    catalog_version: v,
                    host_ids: a,
                    attempt: m,
                    boot_nonce: p,
                    retry_ticket: s,
                },
                ClientOperation::Wake {
                    catalog_version: w,
                    host_ids: b,
                    attempt: n,
                    boot_nonce: q,
                    retry_ticket: t,
                },
            ) => v == w && texts(a@) == texts(b@) && m == n && p == q && s == t,
            _ => false,
        }
    }
}

impl Clone for ServerEvent {
    fn clone(&self) -> (r: ServerEvent)
        ensures
            r@ == self@,
    {
        match self {
            ServerEvent::Hosts { catalog_version, hosts } => {
                let copy: Vec<HostSummary> = hosts.clone();
                assert(copy@ =~= hosts@);
                ServerEvent::Hosts { catalog_version: *catalog_version, hosts: copy }
            },
            ServerEvent::Statuses { catalog_version, statuses } => {
                let copy: Vec<HostStatus> = statuses.clone();
                assert(copy@ =~= statuses@);
                ServerEvent::Statuses { catalog_version: *catalog_version, statuses: copy }
            },
            ServerEvent::CommandExecuted {
                operation_id,
                attempt,
                retry_ticket,
                deadline_ms,
                results,
            } => {
                let copy: Vec<WakeResult> = results.clone();
                assert(copy@ =~= results@);
                ServerEvent::CommandExecuted {
                    operation_id: *operation_id,
                    attempt: *attempt,
                    retry_ticket: *retry_ticket,
                    deadline_ms: *deadline_ms,
                    results: copy,
                }
            },
            ServerEvent::TargetOnline { operation_id, attempt, host_id, observed_at_ms } =>
                ServerEvent::TargetOnline {
                operation_id: *operation_id,
                attempt: *attempt,
                host_id: host_id.clone(),
                observed_at_ms: *observed_at_ms,
            },
            ServerEvent::Error { code, retryable } => ServerEvent::Error {
                code: *code,
                retryable: *retryable,
            },
        }
    }
}

impl Clone for ServerEnvelope {
    fn clone(&self) -> (r: ServerEnvelope)
        ensures
            r@ == self@,
    {
        let headers: Vec<Header> = self.headers.clone();
        assert(headers@ =~= self.headers@);
        ServerEnvelope {
            version: self.version,
            request_id: self.request_id,
            issued_at_ms: self.issued_at_ms,
            headers,
            event: self.event.clone(),
        }
    }
}

/// The fault of the first faulty entry from `k` on: an entry is faulty if its
/// identifier is malformed, stood before, or the entry is not sound.
pub open spec fn entries_fault(
    ids: Seq<Seq<char>>,
    sound: Seq<bool>,
    other: ProtocolError,
    k: int,
) -> Option<ProtocolError>
    decreases ids.len() - k,
{
    if k < 0 || k >= ids.len() {
        None
    } else if !is_id(ids[k]) {
        Some(ProtocolError::Identifier)
    } else if ids.take(k).contains(ids[k]) || !sound[k] {
        Some(other)
    } else {
        entries_fault(ids, sound, other, k + 1)
    }
}

/// A list that names its targets: not empty, bounded, each target an
/// identifier that occurs once.
pub open spec fn targets_fault(catalog_version: u64, ids: Seq<Seq<char>>) -> Option<ProtocolError> {
    if catalog_version == 0 || ids.len() == 0 || ids.len() > MAX_REQUEST_TARGETS {
        Some(ProtocolError::Operation)
    } else {
        entries_fault(ids, ids.map_values(|id: Seq<char>| true), ProtocolError::Operation, 0)
    }
}

/// What is checked of either side's message before its contents.
pub open spec fn envelope_fault(
    version: u16,
    request_id: Seq<u8>,
    issued_at_ms: u64,
    headers: Seq<HeaderModel>,
) -> Option<ProtocolError> {
    if version != PROTOCOL_VERSION {
        Some(ProtocolError::Version)
    } else if is_zero(request_id) || issued_at_ms == 0 {
        Some(ProtocolError::Operation)
    } else if headers_fault(headers) is Some {
        headers_fault(headers)
    } else if !ascending(headers) {
        Some(ProtocolError::Operation)
    } else {
        None
    }
}

pub open spec fn operation_fault(operation: ClientOperation) -> Option<ProtocolError> {
    match operation {
        ClientOperation::ListHosts => None,
        ClientOperation::GetStatuses { catalog_version, host_ids } => targets_fault(
            catalog_version,
            texts(host_ids@),
        ),
        ClientOperation::Wake { catalog_version, host_ids, attempt, boot_nonce, retry_ticket } => {
            if targets_fault(catalog_version, texts(host_ids@)) is Some {
                targets_fault(catalog_version, texts(host_ids@))
            } else if is_zero(boot_nonce@) || !(attempt == 1 && retry_ticket is None || attempt == 2
                && retry_ticket is Some) {
                Some(ProtocolError::Operation)
            } else {
                None
            }
        },
    }
}

pub open spec fn event_fault(request_id: [u8; 16], event: EventModel) -> Option<ProtocolError> {
    match event {
        EventModel::Hosts { catalog_version, hosts } => {
            if catalog_version == 0 || hosts.len() > MAX_HOSTS {
                Some(ProtocolError::Limit)
            } else {
                entries_fault(hosts, hosts.map_values(|id: Seq<char>| true), ProtocolError::Limit, 0)
            }
        },
        EventModel::Statuses { catalog_version, statuses } => {
            if catalog_version == 0 || statuses.len() > MAX_HOSTS {
                Some(ProtocolError::Limit)
            } else {
                entries_fault(
                    statuses.map_values(|s: StatusModel| s.host_id),
                    statuses.map_values(|s: StatusModel| s.observed_at_ms != 0),
                    ProtocolError::Limit,
                    0,
                )
            }
        },
        EventModel::CommandExecuted {
            operation_id,
            attempt,
            retry_ticket,
            deadline_ms,
            results,
        } => {
            if is_zero(operation_id@) || operation_id != request_id || is_zero(retry_ticket@)
                || deadline_ms == 0 || results.len() > MAX_REQUEST_TARGETS || results.len() == 0
                || !(attempt == 1 || attempt == 2) {
                Some(ProtocolError::Limit)
            } else {
                entries_fault(
                    results.map_values(|r: ResultModel| r.host_id),
                    results.map_values(|r: ResultModel| r.accepted == (r.error_code is None)),
                    ProtocolError::Limit,
                    0,
                )
            }
        },
        EventModel::TargetOnline { operation_id, attempt, host_id, observed_at_ms } => {
            if !is_id(host_id) {
                Some(ProtocolError::Identifier)
            } else if is_zero(operation_id@) || operation_id != request_id || !(attempt == 1
                || attempt == 2) || observed_at_ms == 0 {
                Some(ProtocolError::Operation)
            } else {
                None
            }
        },
        EventModel::Error { code, retryable } => None,
    }
}

impl ClientEnvelope {
    /// The reason for which the message is refused.
    pub open spec fn fault(self) -> Option<ProtocolError> {
        let frame = envelope_fault(
            self.version,
            self.request_id@,
            self.issued_at_ms,
            header_models(self.headers@),
        );
        if frame is Some {
            frame
        } else {
            operation_fault(self.operation)
        }
    }
}

impl ReplyModel {
    /// The reason for which the message is refused.
    pub open spec fn fault(self) -> Option<ProtocolError> {
        let frame = envelope_fault(
            self.version,
            self.request_id@,
            self.issued_at_ms,
            self.headers,
        );
        if frame is Some {
            frame
        } else {
            event_fault(self.request_id, self.event)
        }
    }
}

#[verifier::loop_isolation(false)]
fn check_entries(ids: &Vec<String>, sound: &Vec<bool>, other: ProtocolError) -> (r: Option<
    ProtocolError,
>)
    requires
        ids@.len() == sound@.len(),
    ensures
        r == entries_fault(texts(ids@), sound@, other, 0),
{
    let ghost all = texts(ids@);
    let mut k: usize = 0;
    while k < ids.len()
        invariant
            k <= ids@.len(),
            entries_fault(all, sound@, other, 0) == entries_fault(all, sound@, other, k as int),
        decreases ids@.len() - k,
    {
        if let Err(fault) = validate_id(&ids[k]) {
            return Some(fault);
        }
        let mut j: usize = 0;
        while j < k
            invariant
                j <= k,
                forall|m: int| 0 <= m < j ==> all[m] != all[k as int],
            decreases k - j,
        {
            if ids[j] == ids[k] {
                assert(all.take(k as int)[j as int] == all[k as int]);
                return Some(other);
            }
            j += 1;
        }
        assert(!all.take(k as int).contains(all[k as int]));
        if !sound[k] {
            return Some(other);
        }
        k += 1;
    }
    None
}

fn check_targets(catalog_version: u64, ids: &Vec<String>) -> (r: Option<ProtocolError>)
    ensures
        r == targets_fault(catalog_version, texts(ids@)),
{
    if catalog_version == 0 || ids.len() == 0 || ids.len() > MAX_REQUEST_TARGETS {
        return Some(ProtocolError::Operation);
    }
    let sound: Vec<bool> = vec![true; ids.len()];
    assert(sound@ =~= texts(ids@).map_values(|id: Seq<char>| true));
    check_entries(ids, &sound, ProtocolError::Operation)
}

/// Whether the headers stand in the strict order of their names.
#[verifier::loop_isolation(false)]
fn in_order(headers: &Vec<Header>) -> (r: bool)
    ensures
        r == ascending(header_models(headers@)),
{
    let ghost all = header_models(headers@);
    let mut i: usize = 1;
    while i < headers.len()
        invariant
            1 <= i,
            forall|a: int, b: int|
                0 <= a < b < i && b < all.len() ==> before(#[trigger] all[a].name, #[trigger] all[b].name),
        decreases headers@.len() - i,
    {
        if !text_before(&headers[i - 1].name, &headers[i].name) {
            assert(!before(all[i - 1].name, all[i as int].name));
            return false;
        }
        assert forall|a: int, b: int| 0 <= a < b < i + 1 && b < all.len() implies before(
            #[trigger] all[a].name,
            #[trigger] all[b].name,
        ) by {
            if b == i && a < i - 1 {
                before_is_transitive(all[a].name, all[i - 1].name, all[b].name);
            }
        }
        i += 1;
    }
    true
}

fn check_envelope(
    version: u16,
    request_id: &[u8; 16],
    issued_at_ms: u64,
    headers: &Vec<Header>,
) -> (r: Option<ProtocolError>)
    ensures
        r == envelope_fault(version, request_id@, issued_at_ms, header_models(headers@)),
{
    if version != PROTOCOL_VERSION {
        return Some(ProtocolError::Version);
    }
    if all_zero(request_id) || issued_at_ms == 0 {
        return Some(ProtocolError::Operation);
    }
    if let Some(fault) = check_headers(headers) {
        return Some(fault);
    }
    if !in_order(headers) {
        return Some(ProtocolError::Operation);
    }
    None
}

impl ClientEnvelope {
    /// Checks a client's message.
    pub fn validate(&self) -> (r: Result<(), ProtocolError>)
        ensures
            match self.fault() {
                None => r == Ok::<(), ProtocolError>(()),
                Some(fault) => r == Err::<(), ProtocolError>(fault),
            },
    {
        if let Some(fault) = check_envelope(
            self.version,
            &self.request_id,
            self.issued_at_ms,
            &self.headers,
        ) {
            return Err(fault);
        }
        match &self.operation {
            ClientOperation::ListHosts => Ok(()),
            ClientOperation::GetStatuses { catalog_version, host_ids } => {
                match check_targets(*catalog_version, host_ids) {
                    Some(fault) => Err(fault),
                    None => Ok(()),
                }
            },
            ClientOperation::Wake {
                catalog_version,
                host_ids,
                attempt,
                boot_nonce,
                retry_ticket,
            } => {
                if let Some(fault) = check_targets(*catalog_version, host_ids) {
                    return Err(fault);
                }
                if *attempt != 1 && *attempt != 2 {
                    return Err(ProtocolError::Operation);
                }
                if all_zero(boot_nonce) {
                    return Err(ProtocolError::Operation);
                }
                if (*attempt == 1 && retry_ticket.is_some()) || (*attempt == 2
                    && retry_ticket.is_none()) {
                    return Err(ProtocolError::Operation);
                }
                Ok(())
            },
        }
    }
}

#[verifier::loop_isolation(false)]
fn check_hosts(hosts: &Vec<HostSummary>) -> (r: Option<ProtocolError>)
    ensures
        ({
            let ids = summary_models(hosts@);
            r == entries_fault(ids, ids.map_values(|id: Seq<char>| true), ProtocolError::Limit, 0)
        }),
{
    let mut ids: Vec<String> = Vec::new();
    let mut sound: Vec<bool> = Vec::new();
    let mut i: usize = 0;
    while i < hosts.len()
        invariant
            i == ids@.len() == sound@.len() <= hosts@.len(),
            forall|k: int| 0 <= k < i ==> #[trigger] ids@[k]@ == hosts@[k].host_id@ && sound@[k],
        decreases hosts@.len() - i,
    {
        ids.push(hosts[i].host_id.clone());
        sound.push(true);
        i += 1;
    }
    assert(texts(ids@) =~= summary_models(hosts@));
    assert(sound@ =~= texts(ids@).map_values(|id: Seq<char>| true));
    check_entries(&ids, &sound, ProtocolError::Limit)
}

#[verifier::loop_isolation(false)]
fn check_statuses(statuses: &Vec<HostStatus>) -> (r: Option<ProtocolError>)
    ensures
        ({
            let all = status_models(statuses@);
            r == entries_fault(
                all.map_values(|s: StatusModel| s.host_id),
                all.map_values(|s: StatusModel| s.observed_at_ms != 0),
                ProtocolError::Limit,
                0,
            )
        }),
{
    let ghost all = status_models(statuses@);
    let mut ids: Vec<String> = Vec::new();
    let mut sound: Vec<bool> = Vec::new();
    let mut i: usize = 0;
    while i < statuses.len()
        invariant
            i == ids@.len() == sound@.len() <= statuses@.len(),
            forall|k: int| 0 <= k < i ==> #[trigger] ids@[k]@ == all[k].host_id,
            forall|k: int| 0 <= k < i ==> #[trigger] sound@[k] == (all[k].observed_at_ms != 0),
        decreases statuses@.len() - i,
    {
        ids.push(statuses[i].host_id.clone());
        sound.push(statuses[i].observed_at_ms != 0);
        i += 1;
    }
    assert(texts(ids@) =~= all.map_values(|s: StatusModel| s.host_id));
    assert(sound@ =~= all.map_values(|s: StatusModel| s.observed_at_ms != 0));
    check_entries(&ids, &sound, ProtocolError::Limit)
}

#[verifier::loop_isolation(false)]
fn check_results(results: &Vec<WakeResult>) -> (r: Option<ProtocolError>)
    ensures
        ({
            let all = result_models(results@);
            r == entries_fault(
                all.map_values(|r: ResultModel| r.host_id),
                all.map_values(|r: ResultModel| r.accepted == (r.error_code is None)),
                ProtocolError::Limit,
                0,
            )
        }),
{
    let ghost all = result_models(results@);
    let mut ids: Vec<String> = Vec::new();
    let mut sound: Vec<bool> = Vec::new();
    let mut i: usize = 0;
    while i < results.len()
        invariant
            i == ids@.len() == sound@.len() <= results@.len(),
            forall|k: int| 0 <= k < i ==> #[trigger] ids@[k]@ == all[k].host_id,
            forall|k: int|
                0 <= k < i ==> #[trigger] sound@[k] == (all[k].accepted == (all[k].error_code is None)),
        decreases results@.len() - i,
    {
        ids.push(results[i].host_id.clone());
        sound.push(results[i].accepted == results[i].error_code.is_none());
        i += 1;
    }
    assert(texts(ids@) =~= all.map_values(|r: ResultModel| r.host_id));
    assert(sound@ =~= all.map_values(|r: ResultModel| r.accepted == (r.error_code is None)));
    check_entries(&ids, &sound, ProtocolError::Limit)
}

impl ServerEnvelope {
    /// Checks a server's message.
    pub fn validate(&self) -> (r: Result<(), ProtocolError>)
        ensures
            match self@.fault() {
                None => r == Ok::<(), ProtocolError>(()),
                Some(fault) => r == Err::<(), ProtocolError>(fault),
            },
    {
        if let Some(fault) = check_envelope(
            self.version,
            &self.request_id,
            self.issued_at_ms,
            &self.headers,
        ) {
            return Err(fault);
        }
        let fault: Option<ProtocolError> = match &self.event {
            ServerEvent::Hosts { catalog_version, hosts } => {
                if *catalog_version == 0 || hosts.len() > MAX_HOSTS {
                    Some(ProtocolError::Limit)
                } else {
                    check_hosts(hosts)
                }
            },
            ServerEvent::Statuses { catalog_version, statuses } => {
                if *catalog_version == 0 || statuses.len() > MAX_HOSTS {
                    Some(ProtocolError::Limit)
                } else {
                    check_statuses(statuses)
                }
            },
            ServerEvent::CommandExecuted {
                operation_id,
                attempt,
                retry_ticket,
                deadline_ms,
                results,
            } => {
                if all_zero(operation_id) || !same_id(operation_id, &self.request_id) || all_zero(
                    retry_ticket,
                ) || *deadline_ms == 0 || results.len() > MAX_REQUEST_TARGETS || results.len() == 0
                    || (*attempt != 1 && *attempt != 2) {
                    Some(ProtocolError::Limit)
                } else {
                    check_results(results)
                }
            },
            ServerEvent::TargetOnline { operation_id, attempt, host_id, observed_at_ms } => {
                match validate_id(host_id) {
                    Err(fault) => Some(fault),
                    Ok(()) => {
                        if all_zero(operation_id) || !same_id(operation_id, &self.request_id) || (
                        *attempt != 1 && *attempt != 2) || *observed_at_ms == 0 {
                            Some(ProtocolError::Operation)
                        } else {
                            None
                        }
                    },
                }
            },
            ServerEvent::Error { .. } => None,
        };
        match fault {
            Some(fault) => Err(fault),
            None => Ok(()),
        }
    }
}

/// The bytes of a message that a serializer wrote, if they fit in a frame.
pub open spec fn encoded(serialized: Option<Seq<u8>>) -> Result<Seq<u8>, ProtocolError> {
    match serialized {
        Some(bytes) if bytes.len() <= MAX_FRAME_BYTES => Ok(bytes),
        _ => Err(ProtocolError::Limit),
    }
}

/// The message in the bytes of one frame: what a deserializer made of them, if it
/// left none unread.
pub open spec fn decoded<T>(bytes: Seq<u8>, parsed: Option<(T, usize)>) -> Result<T, ProtocolError> {
    if bytes.len() == 0 || bytes.len() > MAX_FRAME_BYTES {
        Err(ProtocolError::Limit)
    } else {
        match parsed {
            Some((value, 0)) => Ok(value),
            _ => Err(ProtocolError::Operation),
        }
    }
}

/// A message that was encoded is decoded to itself, where the deserializer reads
/// back what the serializer wrote. With anything behind it, it is refused.
pub proof fn an_encoded_message_is_decoded<T>(value: T, bytes: Seq<u8>, behind: Seq<u8>)
    requires
        encoded(Some(bytes)) is Ok,
        bytes.len() > 0,
        0 < behind.len() <= usize::MAX,
    ensures
        encoded(Some(bytes)) == Ok::<Seq<u8>, ProtocolError>(bytes),
        1 <= bytes.len() <= 65536,
        decoded(bytes, Some((value, 0usize))) == Ok::<T, ProtocolError>(value),
        decoded(bytes + behind, Some((value, behind.len() as usize))) == Err::<T, ProtocolError>(
            if bytes.len() + behind.len() <= 65536 {
                ProtocolError::Operation
            } else {
                ProtocolError::Limit
            },
        ),
{
}

/// Admits the bytes that a serializer made of a message, if it made any and
/// they fit in a frame.
pub fn encode(serialized: Option<Vec<u8>>) -> (r: Result<Vec<u8>, ProtocolError>)
    ensures
        match encoded(bytes_of(serialized)) {
            Ok(bytes) => r is Ok && r->Ok_0@ == bytes,
            Err(fault) => r == Err::<Vec<u8>, ProtocolError>(fault),
        },
{
    match serialized {
        Some(bytes) => {
            if bytes.len() > MAX_FRAME_BYTES {
                return Err(ProtocolError::Limit);
            }
            Ok(bytes)
        },
        None => Err(ProtocolError::Limit),
    }
}

/// Admits what a deserializer made of the bytes of one frame: `parsed` is the
/// value with the number of bytes that it left unread.
pub fn decode<T>(bytes: &[u8], parsed: Option<(T, usize)>) -> (r: Result<T, ProtocolError>)
    ensures
        r == decoded(bytes@, parsed),
{
    if bytes.len() == 0 || bytes.len() > MAX_FRAME_BYTES {
        return Err(ProtocolError::Limit);
    }
    match parsed {
        Some((value, rest)) => {
            if rest != 0 {
                return Err(ProtocolError::Operation);
            }
            Ok(value)
        },
        None => Err(ProtocolError::Operation),
    }
}

proof fn header_bytes_without(headers: Seq<HeaderModel>, i: int)
    requires
        0 <= i < headers.len(),
    ensures
        header_bytes(headers) == header_bytes(headers.remove(i)) + headers[i].name.len()
            + headers[i].value.len(),
    decreases headers.len(),
{
    if i == headers.len() - 1 {
        assert(headers.remove(i) =~= headers.drop_last());
    } else {
        header_bytes_without(headers.drop_last(), i);
        assert(headers.remove(i).drop_last() =~= headers.drop_last().remove(i));
    }
}

proof fn header_bytes_permuted(a: Seq<HeaderModel>, b: Seq<HeaderModel>)
    requires
        a.to_multiset() == b.to_multiset(),
    ensures
        header_bytes(a) == header_bytes(b),
    decreases a.len(),
{
    broadcast use vstd::seq_lib::group_to_multiset_ensures;

    assert(a.len() == a.to_multiset().len() && b.len() == b.to_multiset().len());
    if a.len() > 0 {
        assert(a.to_multiset().count(a[0]) > 0);
        assert(b.contains(a[0]));
        let i = choose|i: int| 0 <= i < b.len() && b[i] == a[0];
        header_bytes_without(a, 0);
        header_bytes_without(b, i);
        header_bytes_permuted(a.remove(0), b.remove(i));
    }
}

/// What `canonical_headers` returns is itself an accepted list of headers, in
/// the order that a message must have, and a second pass leaves it as it is.
pub proof fn canonical_headers_are_stable(
    given: Seq<HeaderModel>,
    once: Seq<HeaderModel>,
    twice: Seq<HeaderModel>,
)
    requires
        headers_fault(given) is None,
        ascending(once),
        once.to_multiset() == given.to_multiset(),
        ascending(twice),
        twice.to_multiset() == once.to_multiset(),
    ensures
        headers_fault(once) is None,
        twice == once,
{
    broadcast use vstd::seq_lib::group_to_multiset_ensures;

    assert(given.len() == given.to_multiset().len() && once.len() == once.to_multiset().len());
    assert forall|i: int| 0 <= i < once.len() implies is_header(#[trigger] once[i]) by {
        assert(once.contains(once[i]));
        assert(once.to_multiset().count(once[i]) > 0);
        assert(given.contains(once[i]));
    }
    assert forall|i: int, j: int| 0 <= i < j < once.len() implies #[trigger] once[i].name
        != #[trigger] once[j].name by {
        before_is_strict(once[i].name, once[j].name);
    }
    header_bytes_permuted(given, once);
    ascending_is_unique(once, twice);
}

/// A message whose headers came out of `canonical_headers` is never refused for
/// its headers.
pub proof fn canonical_headers_are_accepted(
    given: Seq<HeaderModel>,
    out: Seq<HeaderModel>,
    request_id: [u8; 16],
    issued_at_ms: u64,
)
    requires
        headers_fault(given) is None,
        ascending(out),
        out.to_multiset() == given.to_multiset(),
        !is_zero(request_id@),
        issued_at_ms != 0,
    ensures
        envelope_fault(PROTOCOL_VERSION, request_id@, issued_at_ms, out) is None,
{
    canonical_headers_are_stable(given, out, out);
}

} // verus!
