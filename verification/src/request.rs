//! What a server does with a request.
//!
//! A request is answered at once, or its hosts have to be probed or woken first.
//! The program around the library probes and wakes; what came of it is handed
//! back, recorded and answered.

use crate::clock::{CLOCK_END, MILLISECOND, SECOND};
use crate::crypto::{hex_encode, hex_text, random_32, sha256};
use crate::ledger::{
    after_complete, after_first, after_request, first_verdict, first_wake, live, request_verdict,
    BeginModel, BeginResult, EntryModel, Ledger, OperationKey, WakeBeginResult, WakeRetry,
};
use crate::limits::{
    cooling, none_cooling, reserve_wake_targets_for_client, woken, TargetModel, WakeCooldowns,
};
use crate::octets::{all_zero, is_zero};
use crate::protocol::{
    entries_fault, header_models, is_id, result_models, status_models, summary_models,
    ClientEnvelope, ClientOperation, ErrorCode, EventModel, Header, HeaderModel, HostState,
    HostStatus, HostSummary, ProtocolError, ReplyModel, ResultModel, ServerEnvelope, ServerEvent,
    StatusModel, WakeErrorCode, WakeResult, MAX_STATUS_TARGETS, MAX_WAKE_TARGETS, PROTOCOL_VERSION,
};
use crate::security::fingerprint;
use crate::snapshot::{digest_input, entry_ids, request_digest_context, HostEntry, Snapshot};
use crate::text::{listed, sort_texts, sorted_texts, texts};
use vstd::prelude::*;

verus! {

/// How long a woken host is watched.
pub const MONITOR_TIMEOUT: u64 = 60 * SECOND;

pub const MONITOR_TIMEOUT_MS: u64 = 60_000;

/// The pause between two probes of a host.
pub const MONITOR_INTERVAL: u64 = SECOND;

pub const MAX_MONITORS_PER_CONNECTION: usize = 4;

/// The watch over the hosts that one wake was sent to.
pub struct Monitor {
    pub operation_id: [u8; 16],
    pub attempt: u8,
    pub targets: Vec<HostEntry>,
    /// The hosts that have been seen, each once.
    pub online: Vec<String>,
    pub next_probe: u64,
    pub deadline: u64,
}

pub struct MonitorModel {
    pub operation_id: [u8; 16],
    pub attempt: u8,
    pub targets: Seq<HostEntry>,
    pub online: Seq<Seq<char>>,
    pub next_probe: u64,
    pub deadline: u64,
}

impl View for Monitor {
    type V = MonitorModel;

    open spec fn view(&self) -> MonitorModel {
        MonitorModel {
            operation_id: self.operation_id,
            attempt: self.attempt,
            targets: self.targets@,
            online: texts(self.online@),
            next_probe: self.next_probe,
            deadline: self.deadline,
        }
    }
}

/// What the sender of wakes says of one host.
#[derive(Clone, Copy, Debug, PartialEq, Eq, Structural)]
pub enum WakeOutcome {
    Sent,
    InvalidTarget,
    Unavailable,
}

/// What has to be done for a request.
pub enum RequestStep {
    /// Tell the client that it is not authorized, and close.
    Refuse,
    /// Close: no valid answer can be made.
    Fail(ProtocolError),
    /// Send the answer, and watch the hosts where there is a monitor.
    Reply(ServerEnvelope, Option<Monitor>),
    /// Probe the hosts, then answer with `finish_statuses`.
    Probe(OperationKey, Vec<HostEntry>),
    /// Wake the hosts, then answer with `finish_wake`.
    Dispatch(OperationKey, u8, [u8; 32], Vec<HostEntry>),
}

pub enum StepModel {
    Refuse,
    Fail(ProtocolError),
    Reply(ReplyModel, Option<MonitorModel>),
    Probe(OperationKey, Seq<HostEntry>),
    Dispatch(OperationKey, u8, [u8; 32], Seq<HostEntry>),
}

impl View for RequestStep {
    type V = StepModel;

    open spec fn view(&self) -> StepModel {
        match *self {
            RequestStep::Refuse => StepModel::Refuse,
            RequestStep::Fail(fault) => StepModel::Fail(fault),
            RequestStep::Reply(response, monitor) => StepModel::Reply(
                response@,
                match monitor {
                    Some(monitor) => Some(monitor@),
                    None => None,
                },
            ),
            RequestStep::Probe(key, hosts) => StepModel::Probe(key, hosts@),
            RequestStep::Dispatch(key, attempt, ticket, hosts) => StepModel::Dispatch(
                key,
                attempt,
                ticket,
                hosts@,
            ),
        }
    }
}

/// The records that a request reads and writes.
pub struct Books {
    pub ledger: Ledger,
    pub cooldowns: WakeCooldowns,
}

pub struct BooksModel {
    pub entries: Map<OperationKey, EntryModel>,
    pub last_wake: Map<TargetModel, u64>,
}

impl View for Books {
    type V = BooksModel;

    open spec fn view(&self) -> BooksModel {
        BooksModel { entries: self.ledger@, last_wake: self.cooldowns.last_wake@ }
    }
}

impl Books {
    pub open spec fn wf(self) -> bool {
        self.ledger.wf() && self.cooldowns.wf()
    }

    pub fn new() -> (r: Books)
        ensures
            r.wf(),
            r@ == (BooksModel { entries: Map::empty(), last_wake: Map::empty() }),
    {
        Books { ledger: Ledger::new(), cooldowns: WakeCooldowns::new() }
    }
}

/// The answer with an event.
pub open spec fn answer(
    request_id: [u8; 16],
    headers: Seq<HeaderModel>,
    event: EventModel,
    now_ms: u64,
) -> ReplyModel {
    ReplyModel { version: PROTOCOL_VERSION, request_id, issued_at_ms: now_ms, headers, event }
}

/// The step that sends a response, if it is valid.
pub open spec fn sending(response: ReplyModel, monitor: Option<MonitorModel>) -> StepModel {
    match response.fault() {
        Some(fault) => StepModel::Fail(fault),
        None => StepModel::Reply(response, monitor),
    }
}

/// The step that tells of an error.
pub open spec fn error_step(
    request_id: [u8; 16],
    headers: Seq<HeaderModel>,
    code: ErrorCode,
    retryable: bool,
    now_ms: u64,
) -> StepModel {
    sending(answer(request_id, headers, EventModel::Error { code, retryable }, now_ms), None)
}

/// The response as it is sent now.
pub open spec fn restamped(response: ReplyModel, now_ms: u64) -> ReplyModel {
    ReplyModel { issued_at_ms: now_ms, ..response }
}

/// A response with an event.
pub fn make_response(
    request_id: [u8; 16],
    headers: &Vec<Header>,
    event: ServerEvent,
    now_ms: u64,
) -> (r: Result<ServerEnvelope, ProtocolError>)
    ensures
        ({
            let response = answer(request_id, header_models(headers@), event@, now_ms);
            match response.fault() {
                None => r is Ok && r->Ok_0@ == response,
                Some(fault) => r == Err::<ServerEnvelope, ProtocolError>(fault),
            }
        }),
{
    let copy: Vec<Header> = headers.clone();
    assert(copy@ =~= headers@);
    let response = ServerEnvelope {
        version: PROTOCOL_VERSION,
        request_id,
        issued_at_ms: now_ms,
        headers: copy,
        event,
    };
    match response.validate() {
        Ok(()) => Ok(response),
        Err(fault) => Err(fault),
    }
}

/// The step for a response that was made.
fn reply_with(made: Result<ServerEnvelope, ProtocolError>) -> (r: RequestStep)
    ensures
        match made {
            Ok(response) => r@ == StepModel::Reply(response@, None),
            Err(fault) => r@ == StepModel::Fail(fault),
        },
{
    match made {
        Ok(response) => RequestStep::Reply(response, None),
        Err(fault) => RequestStep::Fail(fault),
    }
}

/// The step that tells of an error.
pub fn reply_error(
    request_id: [u8; 16],
    headers: &Vec<Header>,
    code: ErrorCode,
    retryable: bool,
    now_ms: u64,
) -> (r: RequestStep)
    ensures
        r@ == error_step(request_id, header_models(headers@), code, retryable, now_ms),
{
    reply_with(make_response(request_id, headers, ServerEvent::Error { code, retryable }, now_ms))
}

/// A recorded response, sent again now.
fn reply_again(response: ServerEnvelope, monitor: Option<Monitor>, now_ms: u64) -> (r: RequestStep)
    ensures
        r@ == sending(
            restamped(response@, now_ms),
            match monitor {
                Some(monitor) => Some(monitor@),
                None => None,
            },
        ),
{
    let mut response: ServerEnvelope = response;
    response.issued_at_ms = now_ms;
    match response.validate() {
        Ok(()) => RequestStep::Reply(response, monitor),
        Err(fault) => RequestStep::Fail(fault),
    }
}

/// Whether two lists of headers are the same.
#[verifier::loop_isolation(false)]
pub fn same_headers(a: &Vec<Header>, b: &Vec<Header>) -> (r: bool)
    ensures
        r == (header_models(a@) == header_models(b@)),
{
    if a.len() != b.len() {
        assert(header_models(a@).len() != header_models(b@).len());
        return false;
    }
    let mut i: usize = 0;
    while i < a.len()
        invariant
            i <= a@.len(),
            forall|k: int| 0 <= k < i ==> header_models(a@)[k] == header_models(b@)[k],
        decreases a@.len() - i,
    {
        if a[i].name != b[i].name || a[i].value != b[i].value {
            assert(header_models(a@)[i as int] != header_models(b@)[i as int]);
            return false;
        }
        i += 1;
    }
    assert(header_models(a@) =~= header_models(b@));
    true
}

/// Why the first host from `k` on that is refused is refused.
pub open spec fn hosts_refusal(
    allowed: Seq<Seq<char>>,
    known: Seq<Seq<char>>,
    ids: Seq<Seq<char>>,
    k: int,
) -> Option<ErrorCode>
    decreases ids.len() - k,
{
    if k < 0 || k >= ids.len() {
        None
    } else if ids.take(k).contains(ids[k]) || !allowed.contains(ids[k]) {
        Some(ErrorCode::Unauthorized)
    } else if !known.contains(ids[k]) {
        Some(ErrorCode::BadRequest)
    } else {
        hosts_refusal(allowed, known, ids, k + 1)
    }
}

/// Why the hosts of a request are refused.
pub open spec fn targets_refusal(
    snapshot: Snapshot,
    allowed: Seq<Seq<char>>,
    ids: Seq<Seq<char>>,
    maximum: nat,
) -> Option<ErrorCode> {
    if ids.len() == 0 || ids.len() > maximum {
        Some(ErrorCode::BadRequest)
    } else {
        hosts_refusal(allowed, entry_ids(snapshot.hosts@), ids, 0)
    }
}

/// The entries of named hosts.
pub open spec fn entries_named(hosts: Seq<HostEntry>, ids: Seq<Seq<char>>) -> Seq<HostEntry> {
    ids.map_values(|id: Seq<char>| entry_named(hosts, id))
}

pub open spec fn entry_named(hosts: Seq<HostEntry>, id: Seq<char>) -> HostEntry {
    choose|entry: HostEntry| #[trigger] hosts.contains(entry) && entry.id@ == id
}

/// In a list without duplicates the entry with an identifier is the named one.
proof fn entry_is_named(hosts: Seq<HostEntry>, entry: HostEntry)
    requires
        entry_ids(hosts).no_duplicates(),
        hosts.contains(entry),
    ensures
        entry_named(hosts, entry.id@) == entry,
{
    let other = entry_named(hosts, entry.id@);
    assert(hosts.contains(other) && other.id@ == entry.id@);
    let i = choose|i: int| 0 <= i < hosts.len() && hosts[i] == entry;
    let j = choose|j: int| 0 <= j < hosts.len() && hosts[j] == other;
    assert(entry_ids(hosts)[i] == entry_ids(hosts)[j]);
}

/// The entries of the hosts that a request names, if the client may use them
/// all.
#[verifier::loop_isolation(false)]
pub fn authorized_hosts(
    snapshot: &Snapshot,
    allowed: &Vec<String>,
    host_ids: &Vec<String>,
    maximum: usize,
) -> (r: Result<Vec<HostEntry>, ErrorCode>)
    requires
        snapshot.wf(),
    ensures
        match targets_refusal(*snapshot, texts(allowed@), texts(host_ids@), maximum as nat) {
            None => {
                &&& r is Ok
                &&& r->Ok_0@ == entries_named(snapshot.hosts@, texts(host_ids@))
                &&& entry_ids(r->Ok_0@) == texts(host_ids@)
            },
            Some(code) => r == Err::<Vec<HostEntry>, ErrorCode>(code),
        },
{
    if host_ids.len() == 0 || host_ids.len() > maximum {
        return Err(ErrorCode::BadRequest);
    }
    let ghost ids = texts(host_ids@);
    let ghost may = texts(allowed@);
    let ghost known = entry_ids(snapshot.hosts@);
    let mut out: Vec<HostEntry> = Vec::new();
    let mut k: usize = 0;
    while k < host_ids.len()
        invariant
            k == out@.len() <= host_ids@.len(),
            hosts_refusal(may, known, ids, 0) == hosts_refusal(may, known, ids, k as int),
            forall|i: int|
                0 <= i < k ==> #[trigger] out@[i] == entry_named(snapshot.hosts@, ids[i])
                    && out@[i].id@ == ids[i],
        decreases host_ids@.len() - k,
    {
        let id: &String = &host_ids[k];
        let mut j: usize = 0;
        while j < k
            invariant
                j <= k,
                forall|m: int| 0 <= m < j ==> ids[m] != ids[k as int],
            decreases k - j,
        {
            if host_ids[j] == *id {
                assert(ids.take(k as int)[j as int] == ids[k as int]);
                return Err(ErrorCode::Unauthorized);
            }
            j += 1;
        }
        assert(!ids.take(k as int).contains(ids[k as int]));
        if !listed(allowed, id) {
            return Err(ErrorCode::Unauthorized);
        }
        match snapshot.find(id) {
            Some(entry) => {
                proof {
                    entry_is_named(snapshot.hosts@, *entry);
                    let i = choose|i: int|
                        0 <= i < snapshot.hosts@.len() && snapshot.hosts@[i] == *entry;
                    assert(known[i] == ids[k as int]);
                }
                out.push(entry.clone());
            },
            None => {
                return Err(ErrorCode::BadRequest);
            },
        }
        k += 1;
    }
    assert(out@ =~= entries_named(snapshot.hosts@, ids));
    assert(entry_ids(out@) =~= ids);
    Ok(out)
}

/// The hosts of the catalogue that the client may use, in order.
pub open spec fn visible(catalogue: Seq<Seq<char>>, allowed: Seq<Seq<char>>) -> Seq<Seq<char>>
    decreases catalogue.len(),
{
    if catalogue.len() == 0 {
        catalogue
    } else {
        let front = visible(catalogue.drop_last(), allowed);
        if allowed.contains(catalogue.last()) {
            front.push(catalogue.last())
        } else {
            front
        }
    }
}

#[verifier::loop_isolation(false)]
fn visible_hosts(summaries: &Vec<HostSummary>, allowed: &Vec<String>) -> (r: Vec<HostSummary>)
    ensures
        summary_models(r@) == visible(summary_models(summaries@), texts(allowed@)),
{
    let ghost all = summary_models(summaries@);
    let mut out: Vec<HostSummary> = Vec::new();
    let mut i: usize = 0;
    assert(all.take(0) =~= Seq::<Seq<char>>::empty());
    assert(summary_models(out@) =~= Seq::<Seq<char>>::empty());
    while i < summaries.len()
        invariant
            i <= summaries@.len(),
            summary_models(out@) == visible(all.take(i as int), texts(allowed@)),
        decreases summaries@.len() - i,
    {
        assert(all.take(i + 1).drop_last() =~= all.take(i as int));
        if listed(allowed, &summaries[i].host_id) {
            let ghost before = summary_models(out@);
            out.push(summaries[i].clone());
            assert(summary_models(out@) =~= before.push(all[i as int]));
        }
        i += 1;
    }
    assert(all.take(i as int) =~= all);
    out
}

/// The hosts whose wake was accepted, of a receipt.
pub open spec fn accepted_ids(results: Seq<ResultModel>) -> Seq<Seq<char>>
    decreases results.len(),
{
    if results.len() == 0 {
        Seq::empty()
    } else {
        let front = accepted_ids(results.drop_last());
        if results.last().accepted {
            front.push(results.last().host_id)
        } else {
            front
        }
    }
}

#[verifier::loop_isolation(false)]
fn collect_accepted(results: &Vec<WakeResult>) -> (r: Vec<String>)
    ensures
        texts(r@) == accepted_ids(result_models(results@)),
{
    let ghost all = result_models(results@);
    let mut out: Vec<String> = Vec::new();
    let mut i: usize = 0;
    assert(all.take(0) =~= Seq::<ResultModel>::empty());
    assert(texts(out@) =~= Seq::<Seq<char>>::empty());
    while i < results.len()
        invariant
            i <= results@.len(),
            texts(out@) == accepted_ids(all.take(i as int)),
        decreases results@.len() - i,
    {
        assert(all.take(i + 1).drop_last() =~= all.take(i as int));
        assert(all.take(i + 1).last() == results@[i as int]@);
        if results[i].accepted {
            let ghost before = texts(out@);
            out.push(results[i].host_id.clone());
            assert(texts(out@) =~= before.push(all[i as int].host_id));
        }
        i += 1;
    }
    assert(all.take(i as int) =~= all);
    out
}

/// The hosts of a list that are named in another.
pub open spec fn entries_in(hosts: Seq<HostEntry>, ids: Seq<Seq<char>>) -> Seq<HostEntry>
    decreases hosts.len(),
{
    if hosts.len() == 0 {
        hosts
    } else {
        let front = entries_in(hosts.drop_last(), ids);
        if ids.contains(hosts.last().id@) {
            front.push(hosts.last())
        } else {
            front
        }
    }
}

#[verifier::loop_isolation(false)]
fn select_entries(hosts: &Vec<HostEntry>, ids: &Vec<String>) -> (r: Vec<HostEntry>)
    ensures
        r@ == entries_in(hosts@, texts(ids@)),
{
    let mut out: Vec<HostEntry> = Vec::new();
    let mut i: usize = 0;
    assert(hosts@.take(0) =~= Seq::<HostEntry>::empty());
    while i < hosts.len()
        invariant
            i <= hosts@.len(),
            out@ == entries_in(hosts@.take(i as int), texts(ids@)),
        decreases hosts@.len() - i,
    {
        assert(hosts@.take(i + 1).drop_last() =~= hosts@.take(i as int));
        if listed(ids, &hosts[i].id) {
            out.push(hosts[i].clone());
        }
        i += 1;
    }
    assert(hosts@.take(i as int) =~= hosts@);
    out
}

/// The watch over hosts that begins now.
pub open spec fn new_monitor(
    operation_id: [u8; 16],
    attempt: u8,
    targets: Seq<HostEntry>,
    now: u64,
    span: u64,
) -> Option<MonitorModel> {
    if targets.len() == 0 {
        None
    } else {
        Some(
            MonitorModel {
                operation_id,
                attempt,
                targets,
                online: Seq::empty(),
                next_probe: now,
                deadline: (now + span) as u64,
            },
        )
    }
}

/// The watch that goes with a recorded receipt: over the hosts whose wake was
/// accepted, for what is left of its time.
pub open spec fn resumed_monitor(
    response: ReplyModel,
    hosts: Seq<HostEntry>,
    now: u64,
    now_ms: u64,
) -> Option<MonitorModel> {
    match response.event {
        EventModel::CommandExecuted { operation_id, attempt, retry_ticket, deadline_ms, results } => {
            let left_ms = if deadline_ms <= now_ms {
                0
            } else if deadline_ms - now_ms > MONITOR_TIMEOUT_MS {
                MONITOR_TIMEOUT_MS as int
            } else {
                deadline_ms - now_ms
            };
            if left_ms == 0 {
                None
            } else {
                new_monitor(
                    operation_id,
                    attempt,
                    entries_in(hosts, accepted_ids(results)),
                    now,
                    (left_ms * MILLISECOND) as u64,
                )
            }
        },
        _ => None,
    }
}

pub open spec fn monitor_model(monitor: Option<Monitor>) -> Option<MonitorModel> {
    match monitor {
        Some(monitor) => Some(monitor@),
        None => None,
    }
}

fn start_monitor(
    operation_id: [u8; 16],
    attempt: u8,
    targets: Vec<HostEntry>,
    now: u64,
    span: u64,
) -> (r: Option<Monitor>)
    requires
        now <= CLOCK_END,
        span <= MONITOR_TIMEOUT,
    ensures
        monitor_model(r) == new_monitor(operation_id, attempt, targets@, now, span),
{
    if targets.len() == 0 {
        return None;
    }
    let online: Vec<String> = Vec::new();
    assert(texts(online@) =~= Seq::<Seq<char>>::empty());
    Some(
        Monitor { operation_id, attempt, targets, online, next_probe: now, deadline: now + span },
    )
}

/// The watch that goes with a recorded receipt.
pub fn cached_monitor(
    response: &ServerEnvelope,
    hosts: &Vec<HostEntry>,
    now: u64,
    now_ms: u64,
) -> (r: Option<Monitor>)
    requires
        now <= CLOCK_END,
    ensures
        monitor_model(r) == resumed_monitor(response@, hosts@, now, now_ms),
{
    match &response.event {
        ServerEvent::CommandExecuted { operation_id, attempt, deadline_ms, results, .. } => {
            if *deadline_ms <= now_ms {
                return None;
            }
            let mut left_ms: u64 = *deadline_ms - now_ms;
            if left_ms > MONITOR_TIMEOUT_MS {
                left_ms = MONITOR_TIMEOUT_MS;
            }
            let targets: Vec<HostEntry> = select_entries(hosts, &collect_accepted(results));
            start_monitor(*operation_id, *attempt, targets, now, left_ms * MILLISECOND)
        },
        _ => None,
    }
}

/// The array with given bytes.
pub open spec fn array_of(bytes: Seq<u8>) -> [u8; 32] {
    choose|array: [u8; 32]| array@ == bytes
}

proof fn array_is_of(array: [u8; 32])
    ensures
        array_of(array@) == array,
{
    crate::octets::key_ext(array_of(array@), array);
}

/// The digest by which a repeated request is known.
pub open spec fn digest_of(
    headers: Seq<HeaderModel>,
    tag: Seq<char>,
    catalog_version: u64,
    host_ids: Seq<Seq<char>>,
    boot_nonce: Option<Seq<u8>>,
) -> [u8; 32] {
    array_of(sha256(digest_input(headers, tag, catalog_version, host_ids, boot_nonce)))
}

/// One request of a client: who asks, what it may use, and when.
pub struct Call {
    pub client_key: [u8; 32],
    pub request_id: [u8; 16],
    pub allowed: Seq<Seq<char>>,
    pub headers: Seq<HeaderModel>,
    pub now: u64,
    pub now_ms: u64,
}

impl Call {
    pub open spec fn key(self) -> OperationKey {
        OperationKey { client_key: self.client_key, operation_id: self.request_id }
    }

    pub open spec fn error(self, code: ErrorCode, retryable: bool) -> StepModel {
        error_step(self.request_id, self.headers, code, retryable, self.now_ms)
    }
}

/// A recorded response is sent and kept, one that is not valid ends the
/// connection.
pub open spec fn recorded(
    books: BooksModel,
    call: Call,
    response: ReplyModel,
    monitor: Option<MonitorModel>,
) -> (StepModel, BooksModel) {
    match response.fault() {
        Some(fault) => (StepModel::Fail(fault), books),
        None => (
            StepModel::Reply(response, monitor),
            BooksModel {
                entries: after_complete(books.entries, call.key(), response, call.now),
                ..books
            },
        ),
    }
}

/// What is done with a request for the catalogue.
pub open spec fn list_step(snapshot: Snapshot, books: BooksModel, call: Call) -> (
    StepModel,
    BooksModel,
) {
    let digest = digest_of(call.headers, "list"@, 0, Seq::empty(), None);
    let begun = BooksModel {
        entries: after_request(books.entries, call.key(), digest, call.now),
        ..books
    };
    match request_verdict(live(books.entries, call.now), call.key(), digest) {
        BeginModel::Cached(response) => (sending(restamped(response, call.now_ms), None), begun),
        BeginModel::Busy => (call.error(ErrorCode::Busy, true), begun),
        BeginModel::New => recorded(
            begun,
            call,
            answer(
                call.request_id,
                call.headers,
                EventModel::Hosts {
                    catalog_version: snapshot.catalog_version,
                    hosts: visible(summary_models(snapshot.summaries@), call.allowed),
                },
                call.now_ms,
            ),
            None,
        ),
        _ => (call.error(ErrorCode::Replay, false), begun),
    }
}

/// What is done with a request for the state of hosts.
pub open spec fn status_step(
    snapshot: Snapshot,
    books: BooksModel,
    call: Call,
    catalog_version: u64,
    ids: Seq<Seq<char>>,
) -> (StepModel, BooksModel) {
    let refusal = targets_refusal(snapshot, call.allowed, ids, MAX_STATUS_TARGETS as nat);
    if catalog_version != snapshot.catalog_version {
        (call.error(ErrorCode::StaleCatalog, true), books)
    } else if refusal is Some {
        (call.error(refusal->0, false), books)
    } else {
        let digest = digest_of(call.headers, "status"@, catalog_version, ids, None);
        let begun = BooksModel {
            entries: after_request(books.entries, call.key(), digest, call.now),
            ..books
        };
        match request_verdict(live(books.entries, call.now), call.key(), digest) {
            BeginModel::Cached(response) => (sending(restamped(response, call.now_ms), None), begun),
            BeginModel::Busy => (call.error(ErrorCode::Busy, true), begun),
            BeginModel::New => (
                StepModel::Probe(call.key(), entries_named(snapshot.hosts@, ids)),
                begun,
            ),
            _ => (call.error(ErrorCode::Replay, false), begun),
        }
    }
}

/// The receipt of a wake that came too soon.
pub open spec fn too_soon(ids: Seq<Seq<char>>) -> Seq<ResultModel> {
    ids.map_values(
        |id: Seq<char>|
            ResultModel {
                host_id: id,
                accepted: false,
                error_code: Some(WakeErrorCode::RateLimited),
            },
    )
}

/// The time until which a woken host is watched.
pub open spec fn watch_end(now_ms: u64) -> u64 {
    if now_ms + MONITOR_TIMEOUT_MS > u64::MAX {
        u64::MAX
    } else {
        (now_ms + MONITOR_TIMEOUT_MS) as u64
    }
}

/// The receipt of a wake.
pub open spec fn receipt(
    call: Call,
    attempt: u8,
    ticket: [u8; 32],
    results: Seq<ResultModel>,
) -> ReplyModel {
    answer(
        call.request_id,
        call.headers,
        EventModel::CommandExecuted {
            operation_id: call.request_id,
            attempt,
            retry_ticket: ticket,
            deadline_ms: watch_end(call.now_ms),
            results,
        },
        call.now_ms,
    )
}

/// What is done with a wake that the ledger has admitted.
pub open spec fn admitted_wake(
    snapshot: Snapshot,
    begun: BooksModel,
    call: Call,
    ids: Seq<Seq<char>>,
    attempt: u8,
    ticket: [u8; 32],
) -> (StepModel, BooksModel) {
    let left = cooling(begun.last_wake, call.now);
    if none_cooling(left, call.client_key, sorted_texts(ids)) {
        (
            StepModel::Dispatch(call.key(), attempt, ticket, entries_named(snapshot.hosts@, ids)),
            BooksModel {
                last_wake: woken(left, call.client_key, sorted_texts(ids), call.now),
                ..begun
            },
        )
    } else {
        recorded(
            BooksModel { last_wake: left, ..begun },
            call,
            receipt(call, attempt, ticket, too_soon(sorted_texts(ids))),
            None,
        )
    }
}

/// What is done once the ledger has judged a wake.
pub open spec fn judged_wake(
    snapshot: Snapshot,
    verdict: BeginModel,
    begun: BooksModel,
    call: Call,
    ids: Seq<Seq<char>>,
    attempt: u8,
    ticket: [u8; 32],
) -> (StepModel, BooksModel) {
    match verdict {
        BeginModel::Cached(response) => (
            sending(
                restamped(response, call.now_ms),
                resumed_monitor(
                    response,
                    entries_named(snapshot.hosts@, ids),
                    call.now,
                    call.now_ms,
                ),
            ),
            begun,
        ),
        BeginModel::Busy => (call.error(ErrorCode::Busy, true), begun),
        BeginModel::New => admitted_wake(snapshot, begun, call, ids, attempt, ticket),
        _ => (call.error(ErrorCode::Replay, false), begun),
    }
}

/// What is done with a wake. `fresh` is the ticket that a new one gets.
pub open spec fn wake_step(
    snapshot: Snapshot,
    books: BooksModel,
    call: Call,
    catalog_version: u64,
    host_ids: Vec<String>,
    attempt: u8,
    boot_nonce: [u8; 16],
    retry_ticket: Option<[u8; 32]>,
    fresh: [u8; 32],
) -> (StepModel, BooksModel) {
    let ids = texts(host_ids@);
    let sorted = sorted_texts(ids);
    let refusal = targets_refusal(snapshot, call.allowed, ids, MAX_WAKE_TARGETS as nat);
    let digest = digest_of(call.headers, "wake"@, catalog_version, sorted, Some(boot_nonce@));
    let entries = live(books.entries, call.now);
    if catalog_version != snapshot.catalog_version {
        (call.error(ErrorCode::StaleCatalog, true), books)
    } else if refusal is Some {
        (call.error(refusal->0, false), books)
    } else if attempt == 1 {
        if retry_ticket is Some {
            (call.error(ErrorCode::Replay, false), books)
        } else {
            judged_wake(
                snapshot,
                first_verdict(entries, call.key(), digest, fresh),
                BooksModel {
                    entries: after_first(
                        books.entries,
                        call.key(),
                        digest,
                        first_wake(catalog_version, sorted, boot_nonce, fresh, call.now),
                        call.now,
                    ),
                    ..books
                },
                call,
                ids,
                attempt,
                fresh,
            )
        }
    } else {
        match retry_ticket {
            None => (call.error(ErrorCode::Replay, false), books),
            Some(ticket) => {
                let verdict = retry_verdict(
                    entries,
                    call.key(),
                    digest,
                    catalog_version,
                    sorted,
                    boot_nonce,
                    ticket,
                    call.now,
                );
                judged_wake(
                    snapshot,
                    verdict,
                    BooksModel {
                        entries: if verdict is New {
                            entries.insert(
                                call.key(),
                                crate::ledger::retried(entries[call.key()], call.now),
                            )
                        } else {
                            entries
                        },
                        ..books
                    },
                    call,
                    ids,
                    attempt,
                    ticket,
                )
            },
        }
    }
}

/// What the ledger answers to a second attempt, over the fields of its request.
pub open spec fn retry_verdict(
    entries: Map<OperationKey, EntryModel>,
    key: OperationKey,
    digest: [u8; 32],
    catalog_version: u64,
    ids: Seq<Seq<char>>,
    boot_nonce: [u8; 16],
    ticket: [u8; 32],
    now: u64,
) -> BeginModel {
    if !crate::ledger::ticket_good(entries, key, ticket, now) {
        BeginModel::Replay
    } else {
        let entry = entries[key];
        let wake = entry.wake->0;
        if entry.digest != digest {
            BeginModel::Conflict
        } else if entry.pending {
            BeginModel::Busy
        } else if entry.response is Some && wake.attempt >= 2 {
            BeginModel::Cached(entry.response->0)
        } else if wake.catalog_version == catalog_version && wake.host_ids == ids
            && wake.boot_nonce == boot_nonce && wake.attempt == 1 && !wake.ticket_used {
            BeginModel::New
        } else {
            BeginModel::Replay
        }
    }
}

/// What is done with a request.
pub open spec fn request_step(
    snapshot: Snapshot,
    books: BooksModel,
    call: Call,
    operation: ClientOperation,
    fresh: [u8; 32],
) -> (StepModel, BooksModel) {
    if call.headers != header_models(snapshot.headers@) {
        (StepModel::Refuse, books)
    } else {
        match operation {
            ClientOperation::ListHosts => list_step(snapshot, books, call),
            ClientOperation::GetStatuses { catalog_version, host_ids } => status_step(
                snapshot,
                books,
                call,
                catalog_version,
                texts(host_ids@),
            ),
            ClientOperation::Wake {
                catalog_version,
                host_ids,
                attempt,
                boot_nonce,
                retry_ticket,
            } => wake_step(
                snapshot,
                books,
                call,
                catalog_version,
                host_ids,
                attempt,
                boot_nonce,
                retry_ticket,
                fresh,
            ),
        }
    }
}

/// The call that a message makes.
pub open spec fn call_of(
    client_key: [u8; 32],
    allowed: Seq<String>,
    envelope: ClientEnvelope,
    now: u64,
    now_ms: u64,
) -> Call {
    Call {
        client_key,
        request_id: envelope.request_id,
        allowed: texts(allowed),
        headers: header_models(envelope.headers@),
        now,
        now_ms,
    }
}

/// Records a response and sends it.
fn record(
    books: &mut Books,
    key: OperationKey,
    made: Result<ServerEnvelope, ProtocolError>,
    monitor: Option<Monitor>,
    now: u64,
) -> (r: RequestStep)
    requires
        old(books).wf(),
        now <= CLOCK_END,
    ensures
        final(books).wf(),
        match made {
            Ok(response) => {
                &&& r@ == StepModel::Reply(response@, monitor_model(monitor))
                &&& final(books)@ == (BooksModel {
                    entries: after_complete(old(books)@.entries, key, response@, now),
                    ..old(books)@
                })
            },
            Err(fault) => r@ == StepModel::Fail(fault) && final(books)@ == old(books)@,
        },
{
    match made {
        Ok(response) => {
            books.ledger.complete(key, response.clone(), now);
            RequestStep::Reply(response, monitor)
        },
        Err(fault) => RequestStep::Fail(fault),
    }
}

fn process_list(
    snapshot: &Snapshot,
    books: &mut Books,
    client_key: [u8; 32],
    allowed: &Vec<String>,
    envelope: &ClientEnvelope,
    now: u64,
    now_ms: u64,
) -> (r: RequestStep)
    requires
        snapshot.wf(),
        old(books).wf(),
        now <= CLOCK_END,
        header_models(envelope.headers@) == header_models(snapshot.headers@),
    ensures
        final(books).wf(),
        (r@, final(books)@) == list_step(
            *snapshot,
            old(books)@,
            call_of(client_key, allowed@, *envelope, now, now_ms),
        ),
{
    let ghost call = call_of(client_key, allowed@, *envelope, now, now_ms);
    let id: [u8; 16] = envelope.request_id;
    let key = OperationKey { client_key, operation_id: id };
    let none: Vec<String> = Vec::new();
    let digest: [u8; 32] = request_digest_context(&envelope.headers, "list", 0, &none, None);
    assert(texts(none@) =~= Seq::<Seq<char>>::empty());
    proof {
        array_is_of(digest);
    }
    match books.ledger.begin_request(key, digest, now) {
        BeginResult::Cached(response) => reply_again(response, None, now_ms),
        BeginResult::Busy => reply_error(id, &snapshot.headers, ErrorCode::Busy, true, now_ms),
        BeginResult::Conflict => reply_error(
            id,
            &snapshot.headers,
            ErrorCode::Replay,
            false,
            now_ms,
        ),
        BeginResult::New => {
            let hosts: Vec<HostSummary> = visible_hosts(&snapshot.summaries, allowed);
            let event = ServerEvent::Hosts { catalog_version: snapshot.catalog_version, hosts };
            let made: Result<ServerEnvelope, ProtocolError> = make_response(
                id,
                &snapshot.headers,
                event,
                now_ms,
            );
            record(books, key, made, None, now)
        },
    }
}

fn process_status(
    snapshot: &Snapshot,
    books: &mut Books,
    client_key: [u8; 32],
    allowed: &Vec<String>,
    envelope: &ClientEnvelope,
    catalog_version: u64,
    host_ids: &Vec<String>,
    now: u64,
    now_ms: u64,
) -> (r: RequestStep)
    requires
        snapshot.wf(),
        old(books).wf(),
        now <= CLOCK_END,
        header_models(envelope.headers@) == header_models(snapshot.headers@),
    ensures
        final(books).wf(),
        (r@, final(books)@) == status_step(
            *snapshot,
            old(books)@,
            call_of(client_key, allowed@, *envelope, now, now_ms),
            catalog_version,
            texts(host_ids@),
        ),
{
    let id: [u8; 16] = envelope.request_id;
    let key = OperationKey { client_key, operation_id: id };
    if catalog_version != snapshot.catalog_version {
        return reply_error(id, &snapshot.headers, ErrorCode::StaleCatalog, true, now_ms);
    }
    let hosts: Vec<HostEntry> = match authorized_hosts(
        snapshot,
        allowed,
        host_ids,
        MAX_STATUS_TARGETS,
    ) {
        Ok(hosts) => hosts,
        Err(code) => {
            return reply_error(id, &snapshot.headers, code, false, now_ms);
        },
    };
    let digest: [u8; 32] = request_digest_context(
        &envelope.headers,
        "status",
        catalog_version,
        host_ids,
        None,
    );
    proof {
        array_is_of(digest);
    }
    match books.ledger.begin_request(key, digest, now) {
        BeginResult::Cached(response) => reply_again(response, None, now_ms),
        BeginResult::Busy => reply_error(id, &snapshot.headers, ErrorCode::Busy, true, now_ms),
        BeginResult::Conflict => reply_error(
            id,
            &snapshot.headers,
            ErrorCode::Replay,
            false,
            now_ms,
        ),
        BeginResult::New => RequestStep::Probe(key, hosts),
    }
}

/// The results of a wake that came too soon.
#[verifier::loop_isolation(false)]
fn rate_limited(ids: &Vec<String>) -> (r: Vec<WakeResult>)
    ensures
        result_models(r@) == too_soon(texts(ids@)),
{
    let mut out: Vec<WakeResult> = Vec::new();
    let mut i: usize = 0;
    while i < ids.len()
        invariant
            i == out@.len() <= ids@.len(),
            forall|k: int|
                0 <= k < i ==> (#[trigger] out@[k])@ == (ResultModel {
                    host_id: ids@[k]@,
                    accepted: false,
                    error_code: Some(WakeErrorCode::RateLimited),
                }),
        decreases ids@.len() - i,
    {
        out.push(
            WakeResult {
                host_id: ids[i].clone(),
                accepted: false,
                error_code: Some(WakeErrorCode::RateLimited),
            },
        );
        i += 1;
    }
    assert(result_models(out@) =~= too_soon(texts(ids@)));
    out
}

fn process_wake(
    snapshot: &Snapshot,
    books: &mut Books,
    client_key: [u8; 32],
    allowed: &Vec<String>,
    envelope: &ClientEnvelope,
    catalog_version: u64,
    host_ids: &Vec<String>,
    attempt: u8,
    boot_nonce: &[u8; 16],
    retry_ticket: Option<[u8; 32]>,
    fresh: [u8; 32],
    now: u64,
    now_ms: u64,
) -> (r: RequestStep)
    requires
        snapshot.wf(),
        old(books).wf(),
        now <= CLOCK_END,
        header_models(envelope.headers@) == header_models(snapshot.headers@),
    ensures
        final(books).wf(),
        (r@, final(books)@) == wake_step(
            *snapshot,
            old(books)@,
            call_of(client_key, allowed@, *envelope, now, now_ms),
            catalog_version,
            *host_ids,
            attempt,
            *boot_nonce,
            retry_ticket,
            fresh,
        ),
{
    let id: [u8; 16] = envelope.request_id;
    let key = OperationKey { client_key, operation_id: id };
    if catalog_version != snapshot.catalog_version {
        return reply_error(id, &snapshot.headers, ErrorCode::StaleCatalog, true, now_ms);
    }
    let hosts: Vec<HostEntry> = match authorized_hosts(
        snapshot,
        allowed,
        host_ids,
        MAX_WAKE_TARGETS,
    ) {
        Ok(hosts) => hosts,
        Err(code) => {
            return reply_error(id, &snapshot.headers, code, false, now_ms);
        },
    };
    let sorted: Vec<String> = sort_texts(host_ids);
    let digest: [u8; 32] = request_digest_context(
        &envelope.headers,
        "wake",
        catalog_version,
        &sorted,
        Some(boot_nonce),
    );
    proof {
        array_is_of(digest);
    }
    let begin: WakeBeginResult = if attempt == 1 {
        if retry_ticket.is_some() {
            return reply_error(id, &snapshot.headers, ErrorCode::Replay, false, now_ms);
        }
        books.ledger.begin_wake_attempt1(
            key,
            digest,
            catalog_version,
            crate::text::copy_texts(&sorted),
            *boot_nonce,
            fresh,
            now,
        )
    } else {
        match retry_ticket {
            None => {
                return reply_error(id, &snapshot.headers, ErrorCode::Replay, false, now_ms);
            },
            Some(ticket) => {
                let retry = WakeRetry {
                    digest,
                    catalog_version,
                    host_ids: &sorted,
                    boot_nonce: *boot_nonce,
                    ticket,
                    now,
                };
                books.ledger.begin_wake_attempt2(key, retry)
            },
        }
    };
    let ticket: [u8; 32] = match begin {
        WakeBeginResult::Cached(response) => {
            let monitor: Option<Monitor> = cached_monitor(&response, &hosts, now, now_ms);
            return reply_again(response, monitor, now_ms);
        },
        WakeBeginResult::Busy => {
            return reply_error(id, &snapshot.headers, ErrorCode::Busy, true, now_ms);
        },
        WakeBeginResult::Conflict => {
            return reply_error(id, &snapshot.headers, ErrorCode::Replay, false, now_ms);
        },
        WakeBeginResult::Replay => {
            return reply_error(id, &snapshot.headers, ErrorCode::Replay, false, now_ms);
        },
        WakeBeginResult::New(ticket) => ticket,
    };
    if reserve_wake_targets_for_client(&mut books.cooldowns, client_key, &sorted, now) {
        return RequestStep::Dispatch(key, attempt, ticket, hosts);
    }
    let event = ServerEvent::CommandExecuted {
        operation_id: id,
        attempt,
        retry_ticket: ticket,
        deadline_ms: now_ms.saturating_add(MONITOR_TIMEOUT_MS),
        results: rate_limited(&sorted),
    };
    let made: Result<ServerEnvelope, ProtocolError> = make_response(
        id,
        &snapshot.headers,
        event,
        now_ms,
    );
    record(books, key, made, None, now)
}

/// Decides what is done with a valid request. `fresh` is the ticket that a wake
/// gets if it is new. The custom headers belong to the policy of the server: a
/// request with others is refused, and the connection closed.
pub fn process_envelope(
    snapshot: &Snapshot,
    books: &mut Books,
    client_key: [u8; 32],
    allowed: &Vec<String>,
    envelope: &ClientEnvelope,
    fresh: [u8; 32],
    now: u64,
    now_ms: u64,
) -> (r: RequestStep)
    requires
        snapshot.wf(),
        old(books).wf(),
        now <= CLOCK_END,
    ensures
        final(books).wf(),
        (r@, final(books)@) == request_step(
            *snapshot,
            old(books)@,
            call_of(client_key, allowed@, *envelope, now, now_ms),
            envelope.operation,
            fresh,
        ),
{
    if !same_headers(&envelope.headers, &snapshot.headers) {
        return RequestStep::Refuse;
    }
    match &envelope.operation {
        ClientOperation::ListHosts => process_list(
            snapshot,
            books,
            client_key,
            allowed,
            envelope,
            now,
            now_ms,
        ),
        ClientOperation::GetStatuses { catalog_version, host_ids } => process_status(
            snapshot,
            books,
            client_key,
            allowed,
            envelope,
            *catalog_version,
            host_ids,
            now,
            now_ms,
        ),
        ClientOperation::Wake {
            catalog_version,
            host_ids,
            attempt,
            boot_nonce,
            retry_ticket,
        } => process_wake(
            snapshot,
            books,
            client_key,
            allowed,
            envelope,
            *catalog_version,
            host_ids,
            *attempt,
            boot_nonce,
            *retry_ticket,
            fresh,
            now,
            now_ms,
        ),
    }
}

/// The state that a probe shows: it was seen, it was not, or there was no place
/// for a probe.
pub open spec fn state_of(seen: Option<bool>) -> HostState {
    match seen {
        Some(true) => HostState::Online,
        Some(false) => HostState::Offline,
        None => HostState::Unknown,
    }
}

/// The states of probed hosts.
pub open spec fn observed(hosts: Seq<HostEntry>, seen: Seq<(Option<bool>, u64)>) -> Seq<StatusModel> {
    Seq::new(
        hosts.len(),
        |i: int|
            StatusModel {
                host_id: hosts[i].id@,
                state: state_of(seen[i].0),
                observed_at_ms: seen[i].1,
            },
    )
}

/// The call that an admitted operation goes on from.
pub open spec fn call_again(
    snapshot: Snapshot,
    key: OperationKey,
    now: u64,
    now_ms: u64,
) -> Call {
    Call {
        client_key: key.client_key,
        request_id: key.operation_id,
        allowed: Seq::empty(),
        headers: header_models(snapshot.headers@),
        now,
        now_ms,
    }
}

/// Answers a request for the state of hosts, once they have been probed: `seen`
/// holds for each what the probe showed and when.
#[verifier::loop_isolation(false)]
pub fn finish_statuses(
    snapshot: &Snapshot,
    books: &mut Books,
    key: OperationKey,
    hosts: &Vec<HostEntry>,
    seen: &Vec<(Option<bool>, u64)>,
    now: u64,
    now_ms: u64,
) -> (r: RequestStep)
    requires
        old(books).wf(),
        now <= CLOCK_END,
        seen@.len() == hosts@.len(),
    ensures
        final(books).wf(),
        (r@, final(books)@) == recorded(
            old(books)@,
            call_again(*snapshot, key, now, now_ms),
            answer(
                key.operation_id,
                header_models(snapshot.headers@),
                EventModel::Statuses {
                    catalog_version: snapshot.catalog_version,
                    statuses: observed(hosts@, seen@),
                },
                now_ms,
            ),
            None,
        ),
{
    let mut statuses: Vec<HostStatus> = Vec::new();
    let mut i: usize = 0;
    while i < hosts.len()
        invariant
            i == statuses@.len() <= hosts@.len(),
            forall|k: int|
                0 <= k < i ==> (#[trigger] statuses@[k])@ == observed(hosts@, seen@)[k],
        decreases hosts@.len() - i,
    {
        let state: HostState = match seen[i].0 {
            Some(true) => HostState::Online,
            Some(false) => HostState::Offline,
            None => HostState::Unknown,
        };
        statuses.push(
            HostStatus { host_id: hosts[i].id.clone(), state, observed_at_ms: seen[i].1 },
        );
        i += 1;
    }
    assert(status_models(statuses@) =~= observed(hosts@, seen@));
    let made: Result<ServerEnvelope, ProtocolError> = make_response(
        key.operation_id,
        &snapshot.headers,
        ServerEvent::Statuses { catalog_version: snapshot.catalog_version, statuses },
        now_ms,
    );
    record(books, key, made, None, now)
}

/// The result of one wake.
pub open spec fn result_of(id: Seq<char>, outcome: WakeOutcome) -> ResultModel {
    match outcome {
        WakeOutcome::Sent => ResultModel { host_id: id, accepted: true, error_code: None },
        WakeOutcome::InvalidTarget => ResultModel {
            host_id: id,
            accepted: false,
            error_code: Some(WakeErrorCode::InvalidTarget),
        },
        WakeOutcome::Unavailable => ResultModel {
            host_id: id,
            accepted: false,
            error_code: Some(WakeErrorCode::SenderUnavailable),
        },
    }
}

/// The results of the wakes, host by host.
pub open spec fn results_of(hosts: Seq<HostEntry>, outcomes: Seq<WakeOutcome>) -> Seq<ResultModel> {
    Seq::new(hosts.len(), |i: int| result_of(hosts[i].id@, outcomes[i]))
}

/// The hosts that a wake was sent to.
pub open spec fn sent_to(hosts: Seq<HostEntry>, outcomes: Seq<WakeOutcome>) -> Seq<HostEntry>
    decreases hosts.len(),
{
    if hosts.len() == 0 {
        hosts
    } else {
        let front = sent_to(hosts.drop_last(), outcomes);
        if outcomes[hosts.len() - 1] == WakeOutcome::Sent {
            front.push(hosts.last())
        } else {
            front
        }
    }
}

/// Answers a wake, once it has been sent: `outcomes` holds what the sender says
/// of each host. The hosts that it was sent to are watched.
#[verifier::loop_isolation(false)]
pub fn finish_wake(
    snapshot: &Snapshot,
    books: &mut Books,
    key: OperationKey,
    attempt: u8,
    ticket: [u8; 32],
    hosts: &Vec<HostEntry>,
    outcomes: &Vec<WakeOutcome>,
    now: u64,
    now_ms: u64,
) -> (r: RequestStep)
    requires
        old(books).wf(),
        now <= CLOCK_END,
        outcomes@.len() == hosts@.len(),
    ensures
        final(books).wf(),
        ({
            let call = call_again(*snapshot, key, now, now_ms);
            (r@, final(books)@) == recorded(
                old(books)@,
                call,
                receipt(call, attempt, ticket, results_of(hosts@, outcomes@)),
                new_monitor(
                    key.operation_id,
                    attempt,
                    sent_to(hosts@, outcomes@),
                    now,
                    MONITOR_TIMEOUT,
                ),
            )
        }),
{
    let ghost call = call_again(*snapshot, key, now, now_ms);
    let mut results: Vec<WakeResult> = Vec::new();
    let mut targets: Vec<HostEntry> = Vec::new();
    let mut i: usize = 0;
    assert(hosts@.take(0) =~= Seq::<HostEntry>::empty());
    while i < hosts.len()
        invariant
            i == results@.len() <= hosts@.len(),
            forall|k: int|
                0 <= k < i ==> (#[trigger] results@[k])@ == results_of(hosts@, outcomes@)[k],
            targets@ == sent_to(hosts@.take(i as int), outcomes@),
        decreases hosts@.len() - i,
    {
        assert(hosts@.take(i + 1).drop_last() =~= hosts@.take(i as int));
        let id: String = hosts[i].id.clone();
        match outcomes[i] {
            WakeOutcome::Sent => {
                targets.push(hosts[i].clone());
                results.push(WakeResult { host_id: id, accepted: true, error_code: None });
            },
            WakeOutcome::InvalidTarget => {
                results.push(
                    WakeResult {
                        host_id: id,
                        accepted: false,
                        error_code: Some(WakeErrorCode::InvalidTarget),
                    },
                );
            },
            WakeOutcome::Unavailable => {
                results.push(
                    WakeResult {
                        host_id: id,
                        accepted: false,
                        error_code: Some(WakeErrorCode::SenderUnavailable),
                    },
                );
            },
        }
        i += 1;
    }
    assert(hosts@.take(i as int) =~= hosts@);
    assert(result_models(results@) =~= results_of(hosts@, outcomes@));
    let made: Result<ServerEnvelope, ProtocolError> = make_response(
        key.operation_id,
        &snapshot.headers,
        ServerEvent::CommandExecuted {
            operation_id: key.operation_id,
            attempt,
            retry_ticket: ticket,
            deadline_ms: now_ms.saturating_add(MONITOR_TIMEOUT_MS),
            results,
        },
        now_ms,
    );
    let monitor: Option<Monitor> = start_monitor(
        key.operation_id,
        attempt,
        targets,
        now,
        MONITOR_TIMEOUT,
    );
    record(books, key, made, monitor, now)
}

/// A random ticket, never zero.
pub fn draw_ticket() -> (r: [u8; 32])
    ensures
        !is_zero(r@),
{
    let mut ticket: [u8; 32] = random_32();
    if all_zero(&ticket) {
        ticket[0] = 1;
        assert(ticket@[0] == 1);
    }
    ticket
}

/// The short form of a key for the log.
pub fn short_key(key: &[u8; 32]) -> (r: String)
    ensures
        r@ == crate::security::fingerprint_of(key@).take(16),
{
    let text: String = fingerprint(key);
    let chars: Vec<char> = crate::text::chars_of(&text);
    let r: String = crate::text::text_of(&chars, 0, 16);
    assert(r@ =~= crate::security::fingerprint_of(key@).take(16));
    r
}

/// The short form of a request's identifier for the log.
pub fn short_request(request_id: &[u8; 16]) -> (r: String)
    ensures
        r@ == hex_text(request_id@).take(12),
{
    let text: String = hex_encode(request_id);
    let chars: Vec<char> = crate::text::chars_of(&text);
    let r: String = crate::text::text_of(&chars, 0, 12);
    assert(r@ =~= hex_text(request_id@).take(12));
    r
}

/// The name of an operation for the log.
pub fn operation_name(operation: &ClientOperation) -> (r: &'static str)
    ensures
        r@ == match *operation {
            ClientOperation::ListHosts => "list-hosts"@,
            ClientOperation::GetStatuses { .. } => "get-statuses"@,
            ClientOperation::Wake { attempt, .. } => if attempt == 1 {
                "wake"@
            } else {
                "wake-retry"@
            },
        },
{
    match operation {
        ClientOperation::ListHosts => "list-hosts",
        ClientOperation::GetStatuses { .. } => "get-statuses",
        ClientOperation::Wake { attempt, .. } => if *attempt == 1 {
            "wake"
        } else {
            "wake-retry"
        },
    }
}

proof fn visible_is_part(catalogue: Seq<Seq<char>>, allowed: Seq<Seq<char>>)
    ensures
        visible(catalogue, allowed).len() <= catalogue.len(),
        forall|i: int|
            0 <= i < visible(catalogue, allowed).len() ==> allowed.contains(
                #[trigger] visible(catalogue, allowed)[i],
            ) && catalogue.contains(visible(catalogue, allowed)[i]),
        catalogue.no_duplicates() ==> visible(catalogue, allowed).no_duplicates(),
    decreases catalogue.len(),
{
    if catalogue.len() > 0 {
        let front = catalogue.drop_last();
        visible_is_part(front, allowed);
        let some = visible(front, allowed);
        assert forall|i: int| 0 <= i < visible(catalogue, allowed).len() implies allowed.contains(
            #[trigger] visible(catalogue, allowed)[i],
        ) && catalogue.contains(visible(catalogue, allowed)[i]) by {
            if i < some.len() {
                assert(visible(catalogue, allowed)[i] == some[i]);
                let k = choose|k: int| 0 <= k < front.len() && front[k] == some[i];
                assert(catalogue[k] == some[i]);
            } else {
                assert(catalogue[catalogue.len() - 1] == visible(catalogue, allowed)[i]);
            }
        }
        if catalogue.no_duplicates() {
            assert(front.no_duplicates());
            assert forall|i: int| 0 <= i < some.len() implies some[i] != catalogue.last() by {
                let k = choose|k: int| 0 <= k < front.len() && front[k] == some[i];
                assert(catalogue[k] != catalogue[catalogue.len() - 1]);
            }
        }
    }
}

/// The catalogue that a client is shown holds no host that it may not use.
pub proof fn a_client_sees_only_its_hosts(
    catalogue: Seq<Seq<char>>,
    allowed: Seq<Seq<char>>,
    id: Seq<char>,
)
    requires
        visible(catalogue, allowed).contains(id),
    ensures
        allowed.contains(id),
        catalogue.contains(id),
{
    visible_is_part(catalogue, allowed);
    let i = choose|i: int|
        0 <= i < visible(catalogue, allowed).len() && visible(catalogue, allowed)[i] == id;
}

/// Every identifier is one, and its entry is sound.
spec fn all_sound(ids: Seq<Seq<char>>, sound: Seq<bool>) -> bool {
    forall|i: int| 0 <= i < ids.len() ==> is_id(#[trigger] ids[i]) && sound[i]
}

proof fn entries_ok(ids: Seq<Seq<char>>, sound: Seq<bool>, other: ProtocolError, k: int)
    requires
        0 <= k,
        sound.len() == ids.len(),
        ids.no_duplicates(),
        all_sound(ids, sound),
    ensures
        entries_fault(ids, sound, other, k) is None,
    decreases ids.len() - k,
{
    if k < ids.len() {
        assert(!ids.take(k).contains(ids[k])) by {
            if ids.take(k).contains(ids[k]) {
                let j = choose|j: int| 0 <= j < k && ids.take(k)[j] == ids[k];
                assert(ids[j] == ids[k]);
            }
        }
        entries_ok(ids, sound, other, k + 1);
    }
}

/// The catalogue that a server answers with is always one that a client accepts.
pub proof fn a_catalogue_is_always_valid(
    snapshot: Snapshot,
    allowed: Seq<Seq<char>>,
    request_id: [u8; 16],
    now_ms: u64,
)
    requires
        snapshot.wf(),
        !is_zero(request_id@),
        now_ms != 0,
    ensures
        answer(
            request_id,
            header_models(snapshot.headers@),
            EventModel::Hosts {
                catalog_version: snapshot.catalog_version,
                hosts: visible(summary_models(snapshot.summaries@), allowed),
            },
            now_ms,
        ).fault() is None,
{
    let ids = entry_ids(snapshot.hosts@);
    let all = sorted_texts(ids);
    let shown = visible(all, allowed);
    crate::text::sorted_texts_hold_the_same(ids);
    visible_is_part(all, allowed);
    let sound = shown.map_values(|id: Seq<char>| true);
    assert forall|i: int| 0 <= i < shown.len() implies is_id(#[trigger] shown[i]) && sound[i] by {
        assert(all.contains(shown[i]));
        assert(ids.contains(shown[i]));
        let k = choose|k: int| 0 <= k < ids.len() && ids[k] == shown[i];
        assert(is_id(snapshot.hosts@[k].id@));
    }
    entries_ok(shown, sound, ProtocolError::Limit, 0);
}

proof fn targets_are_known(
    allowed: Seq<Seq<char>>,
    known: Seq<Seq<char>>,
    ids: Seq<Seq<char>>,
    k: int,
    i: int,
)
    requires
        hosts_refusal(allowed, known, ids, k) is None,
        0 <= k <= i < ids.len(),
    ensures
        allowed.contains(ids[i]),
        known.contains(ids[i]),
        !ids.take(i).contains(ids[i]),
    decreases i - k,
{
    if k < i {
        targets_are_known(allowed, known, ids, k + 1, i);
    }
}

/// No host is probed or woken for a client but one that it may use and that is
/// configured, and no host twice for one request.
pub proof fn only_allowed_hosts_are_touched(
    snapshot: Snapshot,
    books: BooksModel,
    call: Call,
    operation: ClientOperation,
    fresh: [u8; 32],
)
    requires
        snapshot.wf(),
    ensures
        ({
            let hosts = match request_step(snapshot, books, call, operation, fresh).0 {
                StepModel::Probe(_, hosts) => hosts,
                StepModel::Dispatch(_, _, _, hosts) => hosts,
                _ => Seq::empty(),
            };
            &&& entry_ids(hosts).no_duplicates()
            &&& hosts.len() <= MAX_WAKE_TARGETS
            &&& forall|i: int|
                0 <= i < hosts.len() ==> snapshot.hosts@.contains(#[trigger] hosts[i])
                    && call.allowed.contains(hosts[i].id@)
        }),
{
    let known = entry_ids(snapshot.hosts@);
    match operation {
        ClientOperation::GetStatuses { catalog_version, host_ids } => {
            hosts_are_touched(snapshot, call.allowed, texts(host_ids@), MAX_STATUS_TARGETS as nat);
        },
        ClientOperation::Wake { catalog_version, host_ids, attempt, boot_nonce, retry_ticket } => {
            hosts_are_touched(snapshot, call.allowed, texts(host_ids@), MAX_WAKE_TARGETS as nat);
        },
        _ => {},
    }
}

proof fn hosts_are_touched(
    snapshot: Snapshot,
    allowed: Seq<Seq<char>>,
    ids: Seq<Seq<char>>,
    maximum: nat,
)
    requires
        snapshot.wf(),
    ensures
        targets_refusal(snapshot, allowed, ids, maximum) is None ==> {
            let hosts = entries_named(snapshot.hosts@, ids);
            &&& entry_ids(hosts) == ids
            &&& ids.no_duplicates()
            &&& hosts.len() <= maximum
            &&& forall|i: int|
                0 <= i < hosts.len() ==> snapshot.hosts@.contains(#[trigger] hosts[i])
                    && allowed.contains(hosts[i].id@)
        },
{
    let known = entry_ids(snapshot.hosts@);
    if targets_refusal(snapshot, allowed, ids, maximum) is None {
        let hosts = entries_named(snapshot.hosts@, ids);
        assert forall|i: int| 0 <= i < ids.len() implies snapshot.hosts@.contains(#[trigger] hosts[i])
            && hosts[i].id@ == ids[i] && allowed.contains(ids[i]) by {
            targets_are_known(allowed, known, ids, 0, i);
            let k = choose|k: int| 0 <= k < known.len() && known[k] == ids[i];
            assert(snapshot.hosts@.contains(snapshot.hosts@[k]));
            assert(snapshot.hosts@[k].id@ == ids[i]);
        }
        assert(entry_ids(hosts) =~= ids);
        assert forall|i: int, j: int| 0 <= i < ids.len() && 0 <= j < ids.len() && i != j implies ids[i]
            != ids[j] by {
            targets_are_known(allowed, known, ids, 0, i);
            targets_are_known(allowed, known, ids, 0, j);
            if i < j {
                assert(ids.take(j)[i] == ids[i]);
            } else {
                assert(ids.take(i)[j] == ids[j]);
            }
        }
    }
}

/// The receipt of a dispatched wake is always one that a client accepts.
pub proof fn a_receipt_is_always_valid(
    snapshot: Snapshot,
    allowed: Seq<Seq<char>>,
    ids: Seq<Seq<char>>,
    outcomes: Seq<WakeOutcome>,
    key: OperationKey,
    attempt: u8,
    ticket: [u8; 32],
    now: u64,
    now_ms: u64,
)
    requires
        snapshot.wf(),
        targets_refusal(snapshot, allowed, ids, MAX_WAKE_TARGETS as nat) is None,
        outcomes.len() == ids.len(),
        attempt == 1 || attempt == 2,
        !is_zero(ticket@),
        !is_zero(key.operation_id@),
        now_ms != 0,
    ensures
        receipt(
            call_again(snapshot, key, now, now_ms),
            attempt,
            ticket,
            results_of(entries_named(snapshot.hosts@, ids), outcomes),
        ).fault() is None,
{
    hosts_are_touched(snapshot, allowed, ids, MAX_WAKE_TARGETS as nat);
    let hosts = entries_named(snapshot.hosts@, ids);
    let results = results_of(hosts, outcomes);
    let named = results.map_values(|r: ResultModel| r.host_id);
    let sound = results.map_values(|r: ResultModel| r.accepted == (r.error_code is None));
    assert(named =~= ids) by {
        assert forall|i: int| 0 <= i < ids.len() implies named[i] == ids[i] by {
            assert(entry_ids(hosts)[i] == ids[i]);
        }
    }
    assert forall|i: int| 0 <= i < ids.len() implies is_id(#[trigger] ids[i]) && sound[i] by {
        assert(snapshot.hosts@.contains(hosts[i]));
        let k = choose|k: int| 0 <= k < snapshot.hosts@.len() && snapshot.hosts@[k] == hosts[i];
        assert(is_id(snapshot.hosts@[k].id@));
        assert(entry_ids(hosts)[i] == ids[i]);
    }
    entries_ok(ids, sound, ProtocolError::Limit, 0);
}

/// Only a wake that the ledger admits is dispatched, and its entry stays.
proof fn only_a_new_wake_is_dispatched(
    snapshot: Snapshot,
    verdict: BeginModel,
    begun: BooksModel,
    call: Call,
    ids: Seq<Seq<char>>,
    attempt: u8,
    ticket: [u8; 32],
)
    requires
        judged_wake(snapshot, verdict, begun, call, ids, attempt, ticket).0 is Dispatch,
    ensures
        verdict is New,
        judged_wake(snapshot, verdict, begun, call, ids, attempt, ticket).1.entries
            == begun.entries,
{
}

/// The entry of a dispatched wake is pending.
proof fn a_dispatched_wake_is_pending(
    snapshot: Snapshot,
    books: BooksModel,
    call: Call,
    operation: ClientOperation,
    fresh: [u8; 32],
)
    requires
        call.now <= CLOCK_END,
        request_step(snapshot, books, call, operation, fresh).0 is Dispatch,
    ensures
        ({
            let after = request_step(snapshot, books, call, operation, fresh).1.entries;
            &&& after.contains_key(call.key())
            &&& after[call.key()].pending
            &&& after[call.key()].expires == call.now + crate::ledger::PENDING_LEDGER_TTL
        }),
{
    if let ClientOperation::Wake {
        catalog_version,
        host_ids,
        attempt,
        boot_nonce,
        retry_ticket,
    } = operation {
        let ids = texts(host_ids@);
        let sorted = sorted_texts(ids);
        let digest = digest_of(call.headers, "wake"@, catalog_version, sorted, Some(boot_nonce@));
        let entries = live(books.entries, call.now);
        if attempt == 1 {
            let wake = first_wake(catalog_version, sorted, boot_nonce, fresh, call.now);
            only_a_new_wake_is_dispatched(
                snapshot,
                first_verdict(entries, call.key(), digest, fresh),
                BooksModel {
                    entries: after_first(books.entries, call.key(), digest, wake, call.now),
                    ..books
                },
                call,
                ids,
                attempt,
                fresh,
            );
        } else {
            let ticket = retry_ticket->0;
            let verdict = retry_verdict(
                entries,
                call.key(),
                digest,
                catalog_version,
                sorted,
                boot_nonce,
                ticket,
                call.now,
            );
            only_a_new_wake_is_dispatched(
                snapshot,
                verdict,
                BooksModel {
                    entries: if verdict is New {
                        entries.insert(
                            call.key(),
                            crate::ledger::retried(entries[call.key()], call.now),
                        )
                    } else {
                        entries
                    },
                    ..books
                },
                call,
                ids,
                attempt,
                ticket,
            );
        }
    }
}

/// What is pending is not dispatched.
proof fn a_pending_wake_is_not_dispatched(
    snapshot: Snapshot,
    books: BooksModel,
    call: Call,
    operation: ClientOperation,
    fresh: [u8; 32],
)
    requires
        live(books.entries, call.now).contains_key(call.key()),
        live(books.entries, call.now)[call.key()].pending,
    ensures
        !(request_step(snapshot, books, call, operation, fresh).0 is Dispatch),
{
    if request_step(snapshot, books, call, operation, fresh).0 is Dispatch {
        if let ClientOperation::Wake {
            catalog_version,
            host_ids,
            attempt,
            boot_nonce,
            retry_ticket,
        } = operation {
            let ids = texts(host_ids@);
            let sorted = sorted_texts(ids);
            let digest = digest_of(
                call.headers,
                "wake"@,
                catalog_version,
                sorted,
                Some(boot_nonce@),
            );
            let entries = live(books.entries, call.now);
            if attempt == 1 {
                let wake = first_wake(catalog_version, sorted, boot_nonce, fresh, call.now);
                only_a_new_wake_is_dispatched(
                    snapshot,
                    first_verdict(entries, call.key(), digest, fresh),
                    BooksModel {
                        entries: after_first(books.entries, call.key(), digest, wake, call.now),
                        ..books
                    },
                    call,
                    ids,
                    attempt,
                    fresh,
                );
            } else {
                let verdict = retry_verdict(
                    entries,
                    call.key(),
                    digest,
                    catalog_version,
                    sorted,
                    boot_nonce,
                    retry_ticket->0,
                    call.now,
                );
                assert(!(verdict is New));
                only_a_new_wake_is_dispatched(
                    snapshot,
                    verdict,
                    BooksModel { entries, ..books },
                    call,
                    ids,
                    attempt,
                    retry_ticket->0,
                );
            }
        }
    }
}

/// A wake that was dispatched is not dispatched again under its identifier while
/// it is under way: whatever is asked under that identifier is answered or
/// refused.
pub proof fn a_wake_is_dispatched_once(
    snapshot: Snapshot,
    books: BooksModel,
    call: Call,
    operation: ClientOperation,
    fresh: [u8; 32],
    later: Call,
    again: ClientOperation,
    other: [u8; 32],
)
    requires
        call.now <= CLOCK_END,
        request_step(snapshot, books, call, operation, fresh).0 is Dispatch,
        later.key() == call.key(),
        call.now <= later.now < call.now + crate::ledger::PENDING_LEDGER_TTL,
    ensures
        ({
            let after = request_step(snapshot, books, call, operation, fresh).1;
            !(request_step(snapshot, after, later, again, other).0 is Dispatch)
        }),
{
    a_dispatched_wake_is_pending(snapshot, books, call, operation, fresh);
    let after = request_step(snapshot, books, call, operation, fresh).1;
    a_pending_wake_is_not_dispatched(snapshot, after, later, again, other);
}

} // verus!
