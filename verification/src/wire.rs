//! Messages as they go over the wire.
//!
//! A message is its head (version, identifier, time, headers, and the kind of what
//! it says) and a body. `postcard` writes and reads both, each as a tuple of plain
//! values; what the values mean, and how many of them there may be, is decided
//! here.

use crate::compact::{
    a_list_reads_back, a_maybe_reads_back, a_text_is_bounded, a_text_reads_back,
    a_varint_reads_back, array_at, bytes_read_back, fits, items_bytes, list_at, list_bytes,
    maybe_at, maybe_bytes, numbers_fit, numbers_read_back, reads_back, text_at, text_bytes,
    truth_at, truth_bytes, u16_at, u32_at, u64_at, u8_at, varint,
};
use crate::handshake::id_bytes;
use crate::octets::{extend, id_ext, key_ext};
use crate::protocol::{
    encode, encoded, entries_fault, event_fault, header_models, headers_fault,
    is_header, is_id, is_name_char, operation_fault,
    result_models, status_models, summary_models, AskModel, ClientEnvelope, ClientOperation,
    ErrorCode, EventModel, Header, HeaderModel, HostState, HostStatus, HostSummary, MessageModel,
    ProtocolError, ReplyModel, ResultModel, ServerEnvelope, ServerEvent, StatusModel,
    WakeErrorCode, WakeResult, MAX_FRAME_BYTES, MAX_HEADERS, MAX_HOSTS, MAX_REQUEST_TARGETS,
};
use crate::text::{is_printable, texts};
use vstd::prelude::*;

verus! {

pub open spec fn header_writer() -> spec_fn(HeaderModel) -> Seq<u8> {
    |h: HeaderModel| text_bytes(h.name) + text_bytes(h.value)
}

pub open spec fn header_reader() -> spec_fn(Seq<u8>) -> Option<(HeaderModel, Seq<u8>)> {
    |bytes: Seq<u8>|
        match text_at(bytes) {
            None => None,
            Some((name, behind)) => match text_at(behind) {
                None => None,
                Some((value, rest)) => Some((HeaderModel { name, value }, rest)),
            },
        }
}

pub open spec fn text_writer() -> spec_fn(Seq<char>) -> Seq<u8> {
    |text: Seq<char>| text_bytes(text)
}

pub open spec fn text_reader() -> spec_fn(Seq<u8>) -> Option<(Seq<char>, Seq<u8>)> {
    |bytes: Seq<u8>| text_at(bytes)
}

/// The parts of a host's state: its identifier, a number for the state, a time.
pub type StatusParts = (Seq<char>, u32, u64);

pub open spec fn status_writer() -> spec_fn(StatusParts) -> Seq<u8> {
    |s: StatusParts| text_bytes(s.0) + varint(s.1 as nat) + varint(s.2 as nat)
}

pub open spec fn status_reader() -> spec_fn(Seq<u8>) -> Option<(StatusParts, Seq<u8>)> {
    |bytes: Seq<u8>|
        match text_at(bytes) {
            None => None,
            Some((id, behind)) => match u32_at(behind) {
                None => None,
                Some((state, tail)) => match u64_at(tail) {
                    None => None,
                    Some((time, rest)) => Some(((id, state, time), rest)),
                },
            },
        }
}

/// The parts of the result of a wake: the identifier, whether it was accepted, a
/// number for the error.
pub type ResultParts = (Seq<char>, bool, Option<u32>);

pub open spec fn u32_writer() -> spec_fn(u32) -> Seq<u8> {
    |n: u32| varint(n as nat)
}

pub open spec fn u32_reader() -> spec_fn(Seq<u8>) -> Option<(u32, Seq<u8>)> {
    |bytes: Seq<u8>| u32_at(bytes)
}

pub open spec fn result_writer() -> spec_fn(ResultParts) -> Seq<u8> {
    |r: ResultParts| text_bytes(r.0) + truth_bytes(r.1) + maybe_bytes(r.2, u32_writer())
}

pub open spec fn result_reader() -> spec_fn(Seq<u8>) -> Option<(ResultParts, Seq<u8>)> {
    |bytes: Seq<u8>|
        match text_at(bytes) {
            None => None,
            Some((id, behind)) => match truth_at(behind) {
                None => None,
                Some((accepted, tail)) => match maybe_at(tail, u32_reader()) {
                    None => None,
                    Some((code, rest)) => Some(((id, accepted, code), rest)),
                },
            },
        }
}

pub open spec fn ticket_writer() -> spec_fn(Seq<u8>) -> Seq<u8> {
    |ticket: Seq<u8>| ticket
}

pub open spec fn ticket_reader() -> spec_fn(Seq<u8>) -> Option<(Seq<u8>, Seq<u8>)> {
    |bytes: Seq<u8>| array_at(bytes, 32)
}

/// The head of a message.
pub struct HeadModel {
    pub version: u16,
    pub request_id: Seq<u8>,
    pub issued_at_ms: u64,
    pub headers: Seq<HeaderModel>,
    pub kind: u32,
}

impl HeadModel {
    pub open spec fn bytes(self) -> Seq<u8> {
        varint(self.version as nat) + self.request_id + varint(self.issued_at_ms as nat)
            + list_bytes(self.headers, header_writer()) + varint(self.kind as nat)
    }
}

/// The head at the start of the bytes, with the bytes behind it.
pub open spec fn head_at(bytes: Seq<u8>) -> Option<(HeadModel, Seq<u8>)> {
    match u16_at(bytes) {
        None => None,
        Some((version, b)) => match array_at(b, 16) {
            None => None,
            Some((request_id, c)) => match u64_at(c) {
                None => None,
                Some((issued_at_ms, d)) => match list_at(d, header_reader()) {
                    None => None,
                    Some((headers, e)) => match u32_at(e) {
                        None => None,
                        Some((kind, rest)) => Some(
                            (HeadModel { version, request_id, issued_at_ms, headers, kind }, rest),
                        ),
                    },
                },
            },
        },
    }
}

/// A catalogue's version and identifiers of its hosts.
pub open spec fn listing_bytes(catalog_version: u64, ids: Seq<Seq<char>>) -> Seq<u8> {
    varint(catalog_version as nat) + list_bytes(ids, text_writer())
}

pub open spec fn listing_at(bytes: Seq<u8>) -> Option<(u64, Seq<Seq<char>>, Seq<u8>)> {
    match u64_at(bytes) {
        None => None,
        Some((catalog_version, b)) => match list_at(b, text_reader()) {
            None => None,
            Some((ids, rest)) => Some((catalog_version, ids, rest)),
        },
    }
}

/// What a wake says besides its hosts.
pub open spec fn attempt_bytes(attempt: u8, boot_nonce: Seq<u8>, ticket: Option<Seq<u8>>) -> Seq<
    u8,
> {
    seq![attempt] + boot_nonce + maybe_bytes(ticket, ticket_writer())
}

pub open spec fn attempt_at(bytes: Seq<u8>) -> Option<(u8, Seq<u8>, Option<Seq<u8>>, Seq<u8>)> {
    match u8_at(bytes) {
        None => None,
        Some((attempt, b)) => match array_at(b, 16) {
            None => None,
            Some((boot_nonce, c)) => match maybe_at(c, ticket_reader()) {
                None => None,
                Some((ticket, rest)) => Some((attempt, boot_nonce, ticket, rest)),
            },
        },
    }
}

pub open spec fn statuses_bytes(catalog_version: u64, statuses: Seq<StatusParts>) -> Seq<u8> {
    varint(catalog_version as nat) + list_bytes(statuses, status_writer())
}

pub open spec fn statuses_at(bytes: Seq<u8>) -> Option<(u64, Seq<StatusParts>, Seq<u8>)> {
    match u64_at(bytes) {
        None => None,
        Some((catalog_version, b)) => match list_at(b, status_reader()) {
            None => None,
            Some((statuses, rest)) => Some((catalog_version, statuses, rest)),
        },
    }
}

/// What a receipt says.
pub struct ReceiptModel {
    pub operation_id: Seq<u8>,
    pub attempt: u8,
    pub retry_ticket: Seq<u8>,
    pub deadline_ms: u64,
    pub results: Seq<ResultParts>,
}

impl ReceiptModel {
    pub open spec fn bytes(self) -> Seq<u8> {
        self.operation_id + seq![self.attempt] + self.retry_ticket + varint(
            self.deadline_ms as nat,
        ) + list_bytes(self.results, result_writer())
    }
}

pub open spec fn receipt_at(bytes: Seq<u8>) -> Option<(ReceiptModel, Seq<u8>)> {
    match array_at(bytes, 16) {
        None => None,
        Some((operation_id, b)) => match u8_at(b) {
            None => None,
            Some((attempt, c)) => match array_at(c, 32) {
                None => None,
                Some((retry_ticket, d)) => match u64_at(d) {
                    None => None,
                    Some((deadline_ms, e)) => match list_at(e, result_reader()) {
                        None => None,
                        Some((results, rest)) => Some(
                            (
                                ReceiptModel {
                                    operation_id,
                                    attempt,
                                    retry_ticket,
                                    deadline_ms,
                                    results,
                                },
                                rest,
                            ),
                        ),
                    },
                },
            },
        },
    }
}

pub open spec fn sighting_bytes(
    operation_id: Seq<u8>,
    attempt: u8,
    host_id: Seq<char>,
    observed_at_ms: u64,
) -> Seq<u8> {
    operation_id + seq![attempt] + text_bytes(host_id) + varint(observed_at_ms as nat)
}

pub open spec fn sighting_at(bytes: Seq<u8>) -> Option<(Seq<u8>, u8, Seq<char>, u64, Seq<u8>)> {
    match array_at(bytes, 16) {
        None => None,
        Some((operation_id, b)) => match u8_at(b) {
            None => None,
            Some((attempt, c)) => match text_at(c) {
                None => None,
                Some((host_id, d)) => match u64_at(d) {
                    None => None,
                    Some((observed_at_ms, rest)) => Some(
                        (operation_id, attempt, host_id, observed_at_ms, rest),
                    ),
                },
            },
        },
    }
}

pub open spec fn failure_bytes(code: u32, retryable: bool) -> Seq<u8> {
    varint(code as nat) + truth_bytes(retryable)
}

pub open spec fn failure_at(bytes: Seq<u8>) -> Option<(u32, bool, Seq<u8>)> {
    match u32_at(bytes) {
        None => None,
        Some((code, b)) => match truth_at(b) {
            None => None,
            Some((retryable, rest)) => Some((code, retryable, rest)),
        },
    }
}

pub open spec fn pair_models(pairs: Seq<(String, String)>) -> Seq<HeaderModel> {
    pairs.map_values(|p: (String, String)| HeaderModel { name: p.0@, value: p.1@ })
}

pub open spec fn status_parts(list: Seq<(String, u32, u64)>) -> Seq<StatusParts> {
    list.map_values(|s: (String, u32, u64)| (s.0@, s.1, s.2))
}

pub open spec fn result_parts(list: Seq<(String, bool, Option<u32>)>) -> Seq<ResultParts> {
    list.map_values(|r: (String, bool, Option<u32>)| (r.0@, r.1, r.2))
}

pub open spec fn ticket_bytes(ticket: Option<[u8; 32]>) -> Option<Seq<u8>> {
    match ticket {
        Some(ticket) => Some(ticket@),
        None => None,
    }
}

/// `postcard::to_allocvec` on the parts of a head: the numbers as varints, the
/// identifier as it is, the headers as a list of pairs of texts. It cannot fail on
/// such parts, nor can the calls of this function below.
#[verifier::external_body]
fn write_head(
    version: u16,
    request_id: &[u8; 16],
    issued_at_ms: u64,
    headers: &Vec<(String, String)>,
    kind: u32,
) -> (r: Option<Vec<u8>>)
    ensures
        r is Some,
        r->0@ == (HeadModel {
            version,
            request_id: request_id@,
            issued_at_ms,
            headers: pair_models(headers@),
            kind,
        }).bytes(),
{
    postcard::to_allocvec(&(version, *request_id, issued_at_ms, headers, kind)).ok()
}

/// `postcard::take_from_bytes` for the parts of a head, with the bytes behind it.
#[verifier::external_body]
fn read_head(bytes: &[u8]) -> (r: Option<
    (u16, [u8; 16], u64, Vec<(String, String)>, u32, Vec<u8>),
>)
    ensures
        match r {
            Some(f) => head_at(bytes@) == Some(
                (
                    HeadModel {
                        version: f.0,
                        request_id: f.1@,
                        issued_at_ms: f.2,
                        headers: pair_models(f.3@),
                        kind: f.4,
                    },
                    f.5@,
                ),
            ),
            None => head_at(bytes@) is None,
        },
{
    let (f, rest): ((u16, [u8; 16], u64, Vec<(String, String)>, u32), &[u8]) =
        postcard::take_from_bytes(bytes).ok()?;
    Some((f.0, f.1, f.2, f.3, f.4, rest.to_vec()))
}

/// `postcard::to_allocvec` on a number and a list of texts.
#[verifier::external_body]
fn write_listing(catalog_version: u64, ids: &Vec<String>) -> (r: Option<Vec<u8>>)
    ensures
        r is Some,
        r->0@ == listing_bytes(catalog_version, texts(ids@)),
{
    postcard::to_allocvec(&(catalog_version, ids)).ok()
}

/// `postcard::take_from_bytes` for a number and a list of texts.
#[verifier::external_body]
fn read_listing(bytes: &[u8]) -> (r: Option<(u64, Vec<String>, Vec<u8>)>)
    ensures
        match r {
            Some(f) => listing_at(bytes@) == Some((f.0, texts(f.1@), f.2@)),
            None => listing_at(bytes@) is None,
        },
{
    let (f, rest): ((u64, Vec<String>), &[u8]) = postcard::take_from_bytes(bytes).ok()?;
    Some((f.0, f.1, rest.to_vec()))
}

/// `postcard::to_allocvec` on what a wake says besides its hosts.
#[verifier::external_body]
fn write_attempt(attempt: u8, boot_nonce: &[u8; 16], ticket: &Option<[u8; 32]>) -> (r: Option<
    Vec<u8>,
>)
    ensures
        r is Some,
        r->0@ == attempt_bytes(attempt, boot_nonce@, ticket_bytes(*ticket)),
{
    postcard::to_allocvec(&(attempt, *boot_nonce, *ticket)).ok()
}

/// `postcard::take_from_bytes` for what a wake says besides its hosts.
#[verifier::external_body]
fn read_attempt(bytes: &[u8]) -> (r: Option<(u8, [u8; 16], Option<[u8; 32]>, Vec<u8>)>)
    ensures
        match r {
            Some(f) => attempt_at(bytes@) == Some((f.0, f.1@, ticket_bytes(f.2), f.3@)),
            None => attempt_at(bytes@) is None,
        },
{
    let (f, rest): ((u8, [u8; 16], Option<[u8; 32]>), &[u8]) =
        postcard::take_from_bytes(bytes).ok()?;
    Some((f.0, f.1, f.2, rest.to_vec()))
}

/// `postcard::to_allocvec` on a number and the states of hosts.
#[verifier::external_body]
fn write_statuses(catalog_version: u64, statuses: &Vec<(String, u32, u64)>) -> (r: Option<Vec<u8>>)
    ensures
        r is Some,
        r->0@ == statuses_bytes(catalog_version, status_parts(statuses@)),
{
    postcard::to_allocvec(&(catalog_version, statuses)).ok()
}

/// `postcard::take_from_bytes` for a number and the states of hosts.
#[verifier::external_body]
fn read_statuses(bytes: &[u8]) -> (r: Option<(u64, Vec<(String, u32, u64)>, Vec<u8>)>)
    ensures
        match r {
            Some(f) => statuses_at(bytes@) == Some((f.0, status_parts(f.1@), f.2@)),
            None => statuses_at(bytes@) is None,
        },
{
    let (f, rest): ((u64, Vec<(String, u32, u64)>), &[u8]) =
        postcard::take_from_bytes(bytes).ok()?;
    Some((f.0, f.1, rest.to_vec()))
}

/// `postcard::to_allocvec` on what a receipt says.
#[verifier::external_body]
fn write_receipt(
    operation_id: &[u8; 16],
    attempt: u8,
    retry_ticket: &[u8; 32],
    deadline_ms: u64,
    results: &Vec<(String, bool, Option<u32>)>,
) -> (r: Option<Vec<u8>>)
    ensures
        r is Some,
        r->0@ == (ReceiptModel {
            operation_id: operation_id@,
            attempt,
            retry_ticket: retry_ticket@,
            deadline_ms,
            results: result_parts(results@),
        }).bytes(),
{
    postcard::to_allocvec(&(*operation_id, attempt, *retry_ticket, deadline_ms, results)).ok()
}

/// `postcard::take_from_bytes` for what a receipt says.
#[verifier::external_body]
fn read_receipt(bytes: &[u8]) -> (r: Option<
    ([u8; 16], u8, [u8; 32], u64, Vec<(String, bool, Option<u32>)>, Vec<u8>),
>)
    ensures
        match r {
            Some(f) => receipt_at(bytes@) == Some(
                (
                    ReceiptModel {
                        operation_id: f.0@,
                        attempt: f.1,
                        retry_ticket: f.2@,
                        deadline_ms: f.3,
                        results: result_parts(f.4@),
                    },
                    f.5@,
                ),
            ),
            None => receipt_at(bytes@) is None,
        },
{
    let (f, rest): (([u8; 16], u8, [u8; 32], u64, Vec<(String, bool, Option<u32>)>), &[u8]) =
        postcard::take_from_bytes(bytes).ok()?;
    Some((f.0, f.1, f.2, f.3, f.4, rest.to_vec()))
}

/// `postcard::to_allocvec` on what a sighting says.
#[verifier::external_body]
fn write_sighting(operation_id: &[u8; 16], attempt: u8, host_id: &str, observed_at_ms: u64) -> (r:
    Option<Vec<u8>>)
    ensures
        r is Some,
        r->0@ == sighting_bytes(operation_id@, attempt, host_id@, observed_at_ms),
{
    postcard::to_allocvec(&(*operation_id, attempt, host_id, observed_at_ms)).ok()
}

/// `postcard::take_from_bytes` for what a sighting says.
#[verifier::external_body]
fn read_sighting(bytes: &[u8]) -> (r: Option<([u8; 16], u8, String, u64, Vec<u8>)>)
    ensures
        match r {
            Some(f) => sighting_at(bytes@) == Some((f.0@, f.1, f.2@, f.3, f.4@)),
            None => sighting_at(bytes@) is None,
        },
{
    let (f, rest): (([u8; 16], u8, String, u64), &[u8]) =
        postcard::take_from_bytes(bytes).ok()?;
    Some((f.0, f.1, f.2, f.3, rest.to_vec()))
}

/// `postcard::to_allocvec` on a number and a truth value.
#[verifier::external_body]
fn write_failure(code: u32, retryable: bool) -> (r: Option<Vec<u8>>)
    ensures
        r is Some,
        r->0@ == failure_bytes(code, retryable),
{
    postcard::to_allocvec(&(code, retryable)).ok()
}

/// `postcard::take_from_bytes` for a number and a truth value.
#[verifier::external_body]
fn read_failure(bytes: &[u8]) -> (r: Option<(u32, bool, Vec<u8>)>)
    ensures
        match r {
            Some(f) => failure_at(bytes@) == Some((f.0, f.1, f.2@)),
            None => failure_at(bytes@) is None,
        },
{
    let (f, rest): ((u32, bool), &[u8]) = postcard::take_from_bytes(bytes).ok()?;
    Some((f.0, f.1, rest.to_vec()))
}

/// The identifier of these sixteen bytes.
pub open spec fn id_of(bytes: Seq<u8>) -> [u8; 16] {
    choose|id: [u8; 16]| id@ == bytes
}

/// The key of these thirty-two bytes.
pub open spec fn key_of(bytes: Seq<u8>) -> [u8; 32] {
    choose|key: [u8; 32]| key@ == bytes
}

pub proof fn ids_are_their_bytes(id: [u8; 16], key: [u8; 32])
    ensures
        id_of(id@) == id,
        key_of(key@) == key,
{
    id_ext(id_of(id@), id);
    key_ext(key_of(key@), key);
}

pub open spec fn ticket_of_bytes(ticket: Option<Seq<u8>>) -> Option<[u8; 32]> {
    match ticket {
        Some(bytes) => Some(key_of(bytes)),
        None => None,
    }
}

/// The number of a state.
pub open spec fn state_number(state: HostState) -> u32 {
    match state {
        HostState::Online => 0,
        HostState::Offline => 1,
        HostState::Unknown => 2,
        HostState::Waking => 3,
        HostState::Succeeded => 4,
        HostState::Failed => 5,
    }
}

pub open spec fn state_of(number: u32) -> Option<HostState> {
    match number {
        0 => Some(HostState::Online),
        1 => Some(HostState::Offline),
        2 => Some(HostState::Unknown),
        3 => Some(HostState::Waking),
        4 => Some(HostState::Succeeded),
        5 => Some(HostState::Failed),
        _ => None,
    }
}

fn number_of_state(state: HostState) -> (r: u32)
    ensures
        r == state_number(state),
{
    match state {
        HostState::Online => 0,
        HostState::Offline => 1,
        HostState::Unknown => 2,
        HostState::Waking => 3,
        HostState::Succeeded => 4,
        HostState::Failed => 5,
    }
}

fn state_of_number(number: u32) -> (r: Option<HostState>)
    ensures
        r == state_of(number),
{
    match number {
        0 => Some(HostState::Online),
        1 => Some(HostState::Offline),
        2 => Some(HostState::Unknown),
        3 => Some(HostState::Waking),
        4 => Some(HostState::Succeeded),
        5 => Some(HostState::Failed),
        _ => None,
    }
}

/// The number of the error of a wake.
pub open spec fn wake_code_number(code: WakeErrorCode) -> u32 {
    match code {
        WakeErrorCode::InvalidTarget => 0,
        WakeErrorCode::RateLimited => 1,
        WakeErrorCode::SenderUnavailable => 2,
        WakeErrorCode::Internal => 3,
    }
}

pub open spec fn wake_code_of(number: u32) -> Option<WakeErrorCode> {
    match number {
        0 => Some(WakeErrorCode::InvalidTarget),
        1 => Some(WakeErrorCode::RateLimited),
        2 => Some(WakeErrorCode::SenderUnavailable),
        3 => Some(WakeErrorCode::Internal),
        _ => None,
    }
}

fn number_of_wake_code(code: WakeErrorCode) -> (r: u32)
    ensures
        r == wake_code_number(code),
{
    match code {
        WakeErrorCode::InvalidTarget => 0,
        WakeErrorCode::RateLimited => 1,
        WakeErrorCode::SenderUnavailable => 2,
        WakeErrorCode::Internal => 3,
    }
}

fn wake_code_of_number(number: u32) -> (r: Option<WakeErrorCode>)
    ensures
        r == wake_code_of(number),
{
    match number {
        0 => Some(WakeErrorCode::InvalidTarget),
        1 => Some(WakeErrorCode::RateLimited),
        2 => Some(WakeErrorCode::SenderUnavailable),
        3 => Some(WakeErrorCode::Internal),
        _ => None,
    }
}

/// The number of an error.
pub open spec fn code_number(code: ErrorCode) -> u32 {
    match code {
        ErrorCode::BadRequest => 0,
        ErrorCode::Unauthorized => 1,
        ErrorCode::Replay => 2,
        ErrorCode::RateLimited => 3,
        ErrorCode::StaleCatalog => 4,
        ErrorCode::Busy => 5,
        ErrorCode::Internal => 6,
    }
}

pub open spec fn code_of(number: u32) -> Option<ErrorCode> {
    match number {
        0 => Some(ErrorCode::BadRequest),
        1 => Some(ErrorCode::Unauthorized),
        2 => Some(ErrorCode::Replay),
        3 => Some(ErrorCode::RateLimited),
        4 => Some(ErrorCode::StaleCatalog),
        5 => Some(ErrorCode::Busy),
        6 => Some(ErrorCode::Internal),
        _ => None,
    }
}

fn number_of_code(code: ErrorCode) -> (r: u32)
    ensures
        r == code_number(code),
{
    match code {
        ErrorCode::BadRequest => 0,
        ErrorCode::Unauthorized => 1,
        ErrorCode::Replay => 2,
        ErrorCode::RateLimited => 3,
        ErrorCode::StaleCatalog => 4,
        ErrorCode::Busy => 5,
        ErrorCode::Internal => 6,
    }
}

fn code_of_number(number: u32) -> (r: Option<ErrorCode>)
    ensures
        r == code_of(number),
{
    match number {
        0 => Some(ErrorCode::BadRequest),
        1 => Some(ErrorCode::Unauthorized),
        2 => Some(ErrorCode::Replay),
        3 => Some(ErrorCode::RateLimited),
        4 => Some(ErrorCode::StaleCatalog),
        5 => Some(ErrorCode::Busy),
        6 => Some(ErrorCode::Internal),
        _ => None,
    }
}

pub open spec fn parts_of_status(status: StatusModel) -> StatusParts {
    (status.host_id, state_number(status.state), status.observed_at_ms)
}

pub open spec fn status_of_parts(parts: StatusParts) -> StatusModel {
    StatusModel {
        host_id: parts.0,
        state: state_of(parts.1)->0,
        observed_at_ms: parts.2,
    }
}

/// The states of hosts, if each of their numbers stands for one.
pub open spec fn statuses_of(parts: Seq<StatusParts>) -> Option<Seq<StatusModel>> {
    if forall|i: int| 0 <= i < parts.len() ==> state_of((#[trigger] parts[i]).1) is Some {
        Some(parts.map_values(|p: StatusParts| status_of_parts(p)))
    } else {
        None
    }
}

pub open spec fn parts_of_result(result: ResultModel) -> ResultParts {
    (
        result.host_id,
        result.accepted,
        match result.error_code {
            Some(code) => Some(wake_code_number(code)),
            None => None,
        },
    )
}

pub open spec fn result_of_parts(parts: ResultParts) -> ResultModel {
    ResultModel {
        host_id: parts.0,
        accepted: parts.1,
        error_code: match parts.2 {
            Some(number) => wake_code_of(number),
            None => None,
        },
    }
}

pub open spec fn is_code(number: Option<u32>) -> bool {
    number matches Some(n) ==> wake_code_of(n) is Some
}

/// The results of a wake, if each of their numbers stands for an error.
pub open spec fn results_of(parts: Seq<ResultParts>) -> Option<Seq<ResultModel>> {
    if forall|i: int| 0 <= i < parts.len() ==> is_code((#[trigger] parts[i]).2) {
        Some(parts.map_values(|p: ResultParts| result_of_parts(p)))
    } else {
        None
    }
}

impl AskModel {
    pub open spec fn kind(self) -> u32 {
        match self {
            AskModel::ListHosts => 0,
            AskModel::GetStatuses { .. } => 1,
            AskModel::Wake { .. } => 2,
        }
    }

    pub open spec fn bytes(self) -> Seq<u8> {
        match self {
            AskModel::ListHosts => Seq::empty(),
            AskModel::GetStatuses { catalog_version, host_ids } => listing_bytes(
                catalog_version,
                host_ids,
            ),
            AskModel::Wake { catalog_version, host_ids, attempt, boot_nonce, retry_ticket } =>
                listing_bytes(catalog_version, host_ids) + attempt_bytes(
                attempt,
                boot_nonce@,
                ticket_bytes(retry_ticket),
            ),
        }
    }
}

/// The operation of that kind in a body that holds nothing else.
pub open spec fn ask_in(kind: u32, body: Seq<u8>) -> Option<AskModel> {
    if kind == 0 {
        if body.len() == 0 {
            Some(AskModel::ListHosts)
        } else {
            None
        }
    } else if kind == 1 || kind == 2 {
        match listing_at(body) {
            Some((catalog_version, host_ids, rest)) if host_ids.len() <= MAX_REQUEST_TARGETS =>
                if kind == 1 {
                    if rest.len() == 0 {
                        Some(AskModel::GetStatuses { catalog_version, host_ids })
                    } else {
                        None
                    }
                } else {
                    match attempt_at(rest) {
                        Some((attempt, boot_nonce, ticket, left)) if left.len() == 0 => Some(
                            AskModel::Wake {
                                catalog_version,
                                host_ids,
                                attempt,
                                boot_nonce: id_of(boot_nonce),
                                retry_ticket: ticket_of_bytes(ticket),
                            },
                        ),
                        _ => None,
                    }
                },
            _ => None,
        }
    } else {
        None
    }
}

impl MessageModel {
    /// The message on the wire.
    pub open spec fn bytes(self) -> Seq<u8> {
        (HeadModel {
            version: self.version,
            request_id: self.request_id@,
            issued_at_ms: self.issued_at_ms,
            headers: self.headers,
            kind: self.operation.kind(),
        }).bytes() + self.operation.bytes()
    }
}

/// The client's message that the bytes are. Lists that are too long are refused
/// as what cannot be read is.
pub open spec fn message_in(bytes: Seq<u8>) -> Result<MessageModel, ProtocolError> {
    if bytes.len() == 0 || bytes.len() > MAX_FRAME_BYTES {
        Err(ProtocolError::Limit)
    } else {
        match head_at(bytes) {
            Some((head, body)) if head.headers.len() <= MAX_HEADERS => match ask_in(
                head.kind,
                body,
            ) {
                Some(operation) => Ok(
                    MessageModel {
                        version: head.version,
                        request_id: id_of(head.request_id),
                        issued_at_ms: head.issued_at_ms,
                        headers: head.headers,
                        operation,
                    },
                ),
                None => Err(ProtocolError::Operation),
            },
            _ => Err(ProtocolError::Operation),
        }
    }
}

impl EventModel {
    pub open spec fn kind(self) -> u32 {
        match self {
            EventModel::Hosts { .. } => 0,
            EventModel::Statuses { .. } => 1,
            EventModel::CommandExecuted { .. } => 2,
            EventModel::TargetOnline { .. } => 3,
            EventModel::Error { .. } => 4,
        }
    }

    pub open spec fn bytes(self) -> Seq<u8> {
        match self {
            EventModel::Hosts { catalog_version, hosts } => listing_bytes(catalog_version, hosts),
            EventModel::Statuses { catalog_version, statuses } => statuses_bytes(
                catalog_version,
                statuses.map_values(|s: StatusModel| parts_of_status(s)),
            ),
            EventModel::CommandExecuted {
                operation_id,
                attempt,
                retry_ticket,
                deadline_ms,
                results,
            } => (ReceiptModel {
                operation_id: operation_id@,
                attempt,
                retry_ticket: retry_ticket@,
                deadline_ms,
                results: results.map_values(|r: ResultModel| parts_of_result(r)),
            }).bytes(),
            EventModel::TargetOnline { operation_id, attempt, host_id, observed_at_ms } =>
                sighting_bytes(operation_id@, attempt, host_id, observed_at_ms),
            EventModel::Error { code, retryable } => failure_bytes(code_number(code), retryable),
        }
    }
}

/// The event of that kind in a body that holds nothing else.
pub open spec fn event_in(kind: u32, body: Seq<u8>) -> Option<EventModel> {
    if kind == 0 {
        match listing_at(body) {
            Some((catalog_version, hosts, rest)) if hosts.len() <= MAX_HOSTS && rest.len() == 0 =>
                Some(EventModel::Hosts { catalog_version, hosts }),
            _ => None,
        }
    } else if kind == 1 {
        match statuses_at(body) {
            Some((catalog_version, parts, rest)) if parts.len() <= MAX_HOSTS && rest.len() == 0 =>
                match statuses_of(parts) {
                    Some(statuses) => Some(EventModel::Statuses { catalog_version, statuses }),
                    None => None,
                },
            _ => None,
        }
    } else if kind == 2 {
        match receipt_at(body) {
            Some((receipt, rest)) if receipt.results.len() <= MAX_REQUEST_TARGETS && rest.len()
                == 0 => match results_of(receipt.results) {
                Some(results) => Some(
                    EventModel::CommandExecuted {
                        operation_id: id_of(receipt.operation_id),
                        attempt: receipt.attempt,
                        retry_ticket: key_of(receipt.retry_ticket),
                        deadline_ms: receipt.deadline_ms,
                        results,
                    },
                ),
                None => None,
            },
            _ => None,
        }
    } else if kind == 3 {
        match sighting_at(body) {
            Some((operation_id, attempt, host_id, observed_at_ms, rest)) if rest.len() == 0 => Some(
                EventModel::TargetOnline {
                    operation_id: id_of(operation_id),
                    attempt,
                    host_id,
                    observed_at_ms,
                },
            ),
            _ => None,
        }
    } else if kind == 4 {
        match failure_at(body) {
            Some((number, retryable, rest)) if rest.len() == 0 => match code_of(number) {
                Some(code) => Some(EventModel::Error { code, retryable }),
                None => None,
            },
            _ => None,
        }
    } else {
        None
    }
}

impl ReplyModel {
    /// The message on the wire.
    pub open spec fn bytes(self) -> Seq<u8> {
        (HeadModel {
            version: self.version,
            request_id: self.request_id@,
            issued_at_ms: self.issued_at_ms,
            headers: self.headers,
            kind: self.event.kind(),
        }).bytes() + self.event.bytes()
    }
}

/// The server's message that the bytes are.
pub open spec fn reply_in(bytes: Seq<u8>) -> Result<ReplyModel, ProtocolError> {
    if bytes.len() == 0 || bytes.len() > MAX_FRAME_BYTES {
        Err(ProtocolError::Limit)
    } else {
        match head_at(bytes) {
            Some((head, body)) if head.headers.len() <= MAX_HEADERS => match event_in(
                head.kind,
                body,
            ) {
                Some(event) => Ok(
                    ReplyModel {
                        version: head.version,
                        request_id: id_of(head.request_id),
                        issued_at_ms: head.issued_at_ms,
                        headers: head.headers,
                        event,
                    },
                ),
                None => Err(ProtocolError::Operation),
            },
            _ => Err(ProtocolError::Operation),
        }
    }
}

fn header_pairs(headers: &Vec<Header>) -> (r: Vec<(String, String)>)
    ensures
        pair_models(r@) == header_models(headers@),
{
    let mut out: Vec<(String, String)> = Vec::new();
    let mut i: usize = 0;
    while i < headers.len()
        invariant
            i <= headers@.len(),
            out@.len() == i,
            forall|k: int|
                0 <= k < i ==> (#[trigger] out@[k]).0@ == headers@[k].name@ && out@[k].1@
                    == headers@[k].value@,
        decreases headers@.len() - i,
    {
        out.push((headers[i].name.clone(), headers[i].value.clone()));
        i += 1;
    }
    assert(pair_models(out@) =~= header_models(headers@));
    out
}

fn pairs_as_headers(pairs: &Vec<(String, String)>) -> (r: Vec<Header>)
    ensures
        header_models(r@) == pair_models(pairs@),
{
    let mut out: Vec<Header> = Vec::new();
    let mut i: usize = 0;
    while i < pairs.len()
        invariant
            i <= pairs@.len(),
            out@.len() == i,
            forall|k: int|
                0 <= k < i ==> (#[trigger] out@[k]).name@ == pairs@[k].0@ && out@[k].value@
                    == pairs@[k].1@,
        decreases pairs@.len() - i,
    {
        out.push(Header { name: pairs[i].0.clone(), value: pairs[i].1.clone() });
        i += 1;
    }
    assert(header_models(out@) =~= pair_models(pairs@));
    out
}

fn summary_ids(hosts: &Vec<HostSummary>) -> (r: Vec<String>)
    ensures
        texts(r@) == summary_models(hosts@),
{
    let mut out: Vec<String> = Vec::new();
    let mut i: usize = 0;
    while i < hosts.len()
        invariant
            i <= hosts@.len(),
            out@.len() == i,
            forall|k: int| 0 <= k < i ==> (#[trigger] out@[k])@ == hosts@[k].host_id@,
        decreases hosts@.len() - i,
    {
        out.push(hosts[i].host_id.clone());
        i += 1;
    }
    assert(texts(out@) =~= summary_models(hosts@));
    out
}

fn ids_as_summaries(ids: &Vec<String>) -> (r: Vec<HostSummary>)
    ensures
        summary_models(r@) == texts(ids@),
{
    let mut out: Vec<HostSummary> = Vec::new();
    let mut i: usize = 0;
    while i < ids.len()
        invariant
            i <= ids@.len(),
            out@.len() == i,
            forall|k: int| 0 <= k < i ==> (#[trigger] out@[k]).host_id@ == ids@[k]@,
        decreases ids@.len() - i,
    {
        out.push(HostSummary { host_id: ids[i].clone() });
        i += 1;
    }
    assert(summary_models(out@) =~= texts(ids@));
    out
}

fn parts_of_statuses(statuses: &Vec<HostStatus>) -> (r: Vec<(String, u32, u64)>)
    ensures
        status_parts(r@) == status_models(statuses@).map_values(
            |s: StatusModel| parts_of_status(s),
        ),
{
    let mut out: Vec<(String, u32, u64)> = Vec::new();
    let mut i: usize = 0;
    while i < statuses.len()
        invariant
            i <= statuses@.len(),
            out@.len() == i,
            forall|k: int|
                0 <= k < i ==> ((#[trigger] out@[k]).0@, out@[k].1, out@[k].2) == parts_of_status(
                    statuses@[k]@,
                ),
        decreases statuses@.len() - i,
    {
        let status: &HostStatus = &statuses[i];
        out.push((status.host_id.clone(), number_of_state(status.state), status.observed_at_ms));
        i += 1;
    }
    assert(status_parts(out@) =~= status_models(statuses@).map_values(
        |s: StatusModel| parts_of_status(s),
    ));
    out
}

fn parts_as_statuses(parts: &Vec<(String, u32, u64)>) -> (r: Option<Vec<HostStatus>>)
    ensures
        match r {
            Some(statuses) => statuses_of(status_parts(parts@)) == Some(status_models(statuses@)),
            None => statuses_of(status_parts(parts@)) is None,
        },
{
    let ghost all = status_parts(parts@);
    let mut out: Vec<HostStatus> = Vec::new();
    let mut i: usize = 0;
    while i < parts.len()
        invariant
            i <= parts@.len(),
            all == status_parts(parts@),
            out@.len() == i,
            forall|k: int|
                0 <= k < i ==> (#[trigger] out@[k])@ == status_of_parts(all[k]) && state_of(
                    all[k].1,
                ) is Some,
        decreases parts@.len() - i,
    {
        let part: &(String, u32, u64) = &parts[i];
        assert(all[i as int] == (part.0@, part.1, part.2));
        match state_of_number(part.1) {
            Some(state) => {
                out.push(HostStatus { host_id: part.0.clone(), state, observed_at_ms: part.2 });
            },
            None => {
                return None;
            },
        }
        i += 1;
    }
    assert forall|k: int| 0 <= k < all.len() implies state_of((#[trigger] all[k]).1) is Some by {
        assert(out@[k]@ == status_of_parts(all[k]));
    }
    assert(status_models(out@) =~= all.map_values(|p: StatusParts| status_of_parts(p)));
    Some(out)
}

fn parts_of_results(results: &Vec<WakeResult>) -> (r: Vec<(String, bool, Option<u32>)>)
    ensures
        result_parts(r@) == result_models(results@).map_values(
            |r: ResultModel| parts_of_result(r),
        ),
{
    let mut out: Vec<(String, bool, Option<u32>)> = Vec::new();
    let mut i: usize = 0;
    while i < results.len()
        invariant
            i <= results@.len(),
            out@.len() == i,
            forall|k: int|
                0 <= k < i ==> ((#[trigger] out@[k]).0@, out@[k].1, out@[k].2) == parts_of_result(
                    results@[k]@,
                ),
        decreases results@.len() - i,
    {
        let result: &WakeResult = &results[i];
        let code: Option<u32> = match result.error_code {
            Some(code) => Some(number_of_wake_code(code)),
            None => None,
        };
        out.push((result.host_id.clone(), result.accepted, code));
        i += 1;
    }
    assert(result_parts(out@) =~= result_models(results@).map_values(
        |r: ResultModel| parts_of_result(r),
    ));
    out
}

fn parts_as_results(parts: &Vec<(String, bool, Option<u32>)>) -> (r: Option<Vec<WakeResult>>)
    ensures
        match r {
            Some(results) => results_of(result_parts(parts@)) == Some(result_models(results@)),
            None => results_of(result_parts(parts@)) is None,
        },
{
    let ghost all = result_parts(parts@);
    let mut out: Vec<WakeResult> = Vec::new();
    let mut i: usize = 0;
    while i < parts.len()
        invariant
            i <= parts@.len(),
            all == result_parts(parts@),
            out@.len() == i,
            forall|k: int|
                0 <= k < i ==> (#[trigger] out@[k])@ == result_of_parts(all[k]) && is_code(all[k].2),
        decreases parts@.len() - i,
    {
        let part: &(String, bool, Option<u32>) = &parts[i];
        assert(all[i as int] == (part.0@, part.1, part.2));
        let error_code: Option<WakeErrorCode> = match part.2 {
            Some(number) => match wake_code_of_number(number) {
                Some(code) => Some(code),
                None => {
                    assert(!is_code(all[i as int].2));
                    return None;
                },
            },
            None => None,
        };
        out.push(WakeResult { host_id: part.0.clone(), accepted: part.1, error_code });
        i += 1;
    }
    assert forall|k: int| 0 <= k < all.len() implies is_code((#[trigger] all[k]).2) by {
        assert(out@[k]@ == result_of_parts(all[k]));
    }
    assert(result_models(out@) =~= all.map_values(|p: ResultParts| result_of_parts(p)));
    Some(out)
}

/// The parts of a message one behind the other.
fn in_turn(head: Option<Vec<u8>>, body: Option<Vec<u8>>) -> (r: Option<Vec<u8>>)
    requires
        head is Some,
        body is Some,
    ensures
        r is Some,
        r->0@ == head->0@ + body->0@,
{
    match (head, body) {
        (Some(head), Some(body)) => {
            let mut all: Vec<u8> = head;
            extend(&mut all, &body);
            Some(all)
        },
        _ => None,
    }
}

fn write_operation(operation: &ClientOperation) -> (r: Option<Vec<u8>>)
    ensures
        r is Some,
        r->0@ == operation@.bytes(),
{
    match operation {
        ClientOperation::ListHosts => {
            let none: Vec<u8> = Vec::new();
            assert(none@ =~= Seq::<u8>::empty());
            Some(none)
        },
        ClientOperation::GetStatuses { catalog_version, host_ids } => write_listing(
            *catalog_version,
            host_ids,
        ),
        ClientOperation::Wake { catalog_version, host_ids, attempt, boot_nonce, retry_ticket } =>
            in_turn(
            write_listing(*catalog_version, host_ids),
            write_attempt(*attempt, boot_nonce, retry_ticket),
        ),
    }
}

/// The bytes of a client's message, if they fit in a frame.
pub fn encode_client(envelope: &ClientEnvelope) -> (r: Result<Vec<u8>, ProtocolError>)
    ensures
        match encoded(Some(envelope@.bytes())) {
            Ok(bytes) => r is Ok && r->Ok_0@ == bytes,
            Err(fault) => r == Err::<Vec<u8>, ProtocolError>(fault),
        },
{
    let kind: u32 = match &envelope.operation {
        ClientOperation::ListHosts => 0,
        ClientOperation::GetStatuses { .. } => 1,
        ClientOperation::Wake { .. } => 2,
    };
    let head: Option<Vec<u8>> = write_head(
        envelope.version,
        &envelope.request_id,
        envelope.issued_at_ms,
        &header_pairs(&envelope.headers),
        kind,
    );
    encode(in_turn(head, write_operation(&envelope.operation)))
}

fn write_event(event: &ServerEvent) -> (r: Option<Vec<u8>>)
    ensures
        r is Some,
        r->0@ == event@.bytes(),
{
    match event {
        ServerEvent::Hosts { catalog_version, hosts } => write_listing(
            *catalog_version,
            &summary_ids(hosts),
        ),
        ServerEvent::Statuses { catalog_version, statuses } => write_statuses(
            *catalog_version,
            &parts_of_statuses(statuses),
        ),
        ServerEvent::CommandExecuted {
            operation_id,
            attempt,
            retry_ticket,
            deadline_ms,
            results,
        } => write_receipt(
            operation_id,
            *attempt,
            retry_ticket,
            *deadline_ms,
            &parts_of_results(results),
        ),
        ServerEvent::TargetOnline { operation_id, attempt, host_id, observed_at_ms } =>
            write_sighting(operation_id, *attempt, host_id, *observed_at_ms),
        ServerEvent::Error { code, retryable } => write_failure(number_of_code(*code), *retryable),
    }
}

/// The bytes of a server's message, if they fit in a frame.
pub fn encode_server(envelope: &ServerEnvelope) -> (r: Result<Vec<u8>, ProtocolError>)
    ensures
        match encoded(Some(envelope@.bytes())) {
            Ok(bytes) => r is Ok && r->Ok_0@ == bytes,
            Err(fault) => r == Err::<Vec<u8>, ProtocolError>(fault),
        },
{
    let kind: u32 = match &envelope.event {
        ServerEvent::Hosts { .. } => 0,
        ServerEvent::Statuses { .. } => 1,
        ServerEvent::CommandExecuted { .. } => 2,
        ServerEvent::TargetOnline { .. } => 3,
        ServerEvent::Error { .. } => 4,
    };
    let head: Option<Vec<u8>> = write_head(
        envelope.version,
        &envelope.request_id,
        envelope.issued_at_ms,
        &header_pairs(&envelope.headers),
        kind,
    );
    encode(in_turn(head, write_event(&envelope.event)))
}

fn read_operation(kind: u32, body: &Vec<u8>) -> (r: Option<ClientOperation>)
    ensures
        match r {
            Some(operation) => ask_in(kind, body@) == Some(operation@),
            None => ask_in(kind, body@) is None,
        },
{
    if kind == 0 {
        return if body.len() == 0 {
            Some(ClientOperation::ListHosts)
        } else {
            None
        };
    }
    if kind != 1 && kind != 2 {
        return None;
    }
    let (catalog_version, host_ids, rest): (u64, Vec<String>, Vec<u8>) = match read_listing(body) {
        Some(listing) => listing,
        None => {
            return None;
        },
    };
    if host_ids.len() > MAX_REQUEST_TARGETS {
        return None;
    }
    if kind == 1 {
        return if rest.len() == 0 {
            Some(ClientOperation::GetStatuses { catalog_version, host_ids })
        } else {
            None
        };
    }
    match read_attempt(&rest) {
        Some((attempt, boot_nonce, retry_ticket, left)) => {
            if left.len() != 0 {
                return None;
            }
            proof {
                ids_are_their_bytes(
                    boot_nonce,
                    match retry_ticket {
                        Some(ticket) => ticket,
                        None => key_of(Seq::empty()),
                    },
                );
            }
            Some(
                ClientOperation::Wake {
                    catalog_version,
                    host_ids,
                    attempt,
                    boot_nonce,
                    retry_ticket,
                },
            )
        },
        None => None,
    }
}

/// Reads a client's message.
pub fn decode_client(bytes: &[u8]) -> (r: Result<ClientEnvelope, ProtocolError>)
    ensures
        match r {
            Ok(envelope) => message_in(bytes@) == Ok::<MessageModel, ProtocolError>(envelope@),
            Err(fault) => message_in(bytes@) == Err::<MessageModel, ProtocolError>(fault),
        },
{
    if bytes.len() == 0 || bytes.len() > MAX_FRAME_BYTES {
        return Err(ProtocolError::Limit);
    }
    match read_head(bytes) {
        Some((version, request_id, issued_at_ms, pairs, kind, body)) => {
            if pairs.len() > MAX_HEADERS {
                return Err(ProtocolError::Operation);
            }
            proof {
                ids_are_their_bytes(request_id, key_of(Seq::empty()));
            }
            match read_operation(kind, &body) {
                Some(operation) => Ok(
                    ClientEnvelope {
                        version,
                        request_id,
                        issued_at_ms,
                        headers: pairs_as_headers(&pairs),
                        operation,
                    },
                ),
                None => Err(ProtocolError::Operation),
            }
        },
        None => Err(ProtocolError::Operation),
    }
}

fn read_event(kind: u32, body: &Vec<u8>) -> (r: Option<ServerEvent>)
    ensures
        match r {
            Some(event) => event_in(kind, body@) == Some(event@),
            None => event_in(kind, body@) is None,
        },
{
    match kind {
        0 => match read_listing(body) {
            Some((catalog_version, ids, rest)) => {
                if ids.len() > MAX_HOSTS || rest.len() != 0 {
                    return None;
                }
                Some(ServerEvent::Hosts { catalog_version, hosts: ids_as_summaries(&ids) })
            },
            None => None,
        },
        1 => match read_statuses(body) {
            Some((catalog_version, parts, rest)) => {
                if parts.len() > MAX_HOSTS || rest.len() != 0 {
                    return None;
                }
                match parts_as_statuses(&parts) {
                    Some(statuses) => Some(ServerEvent::Statuses { catalog_version, statuses }),
                    None => None,
                }
            },
            None => None,
        },
        2 => match read_receipt(body) {
            Some((operation_id, attempt, retry_ticket, deadline_ms, parts, rest)) => {
                if parts.len() > MAX_REQUEST_TARGETS || rest.len() != 0 {
                    return None;
                }
                proof {
                    ids_are_their_bytes(operation_id, retry_ticket);
                }
                match parts_as_results(&parts) {
                    Some(results) => Some(
                        ServerEvent::CommandExecuted {
                            operation_id,
                            attempt,
                            retry_ticket,
                            deadline_ms,
                            results,
                        },
                    ),
                    None => None,
                }
            },
            None => None,
        },
        3 => match read_sighting(body) {
            Some((operation_id, attempt, host_id, observed_at_ms, rest)) => {
                if rest.len() != 0 {
                    return None;
                }
                proof {
                    ids_are_their_bytes(operation_id, key_of(Seq::empty()));
                }
                Some(ServerEvent::TargetOnline { operation_id, attempt, host_id, observed_at_ms })
            },
            None => None,
        },
        4 => match read_failure(body) {
            Some((number, retryable, rest)) => {
                if rest.len() != 0 {
                    return None;
                }
                match code_of_number(number) {
                    Some(code) => Some(ServerEvent::Error { code, retryable }),
                    None => None,
                }
            },
            None => None,
        },
        _ => None,
    }
}

/// Reads a server's message.
pub fn decode_server(bytes: &[u8]) -> (r: Result<ServerEnvelope, ProtocolError>)
    ensures
        match r {
            Ok(envelope) => reply_in(bytes@) == Ok::<ReplyModel, ProtocolError>(envelope@),
            Err(fault) => reply_in(bytes@) == Err::<ReplyModel, ProtocolError>(fault),
        },
{
    if bytes.len() == 0 || bytes.len() > MAX_FRAME_BYTES {
        return Err(ProtocolError::Limit);
    }
    match read_head(bytes) {
        Some((version, request_id, issued_at_ms, pairs, kind, body)) => {
            if pairs.len() > MAX_HEADERS {
                return Err(ProtocolError::Operation);
            }
            proof {
                ids_are_their_bytes(request_id, key_of(Seq::empty()));
            }
            match read_event(kind, &body) {
                Some(event) => Ok(
                    ServerEnvelope {
                        version,
                        request_id,
                        issued_at_ms,
                        headers: pairs_as_headers(&pairs),
                        event,
                    },
                ),
                None => Err(ProtocolError::Operation),
            }
        },
        None => Err(ProtocolError::Operation),
    }
}

/// A text of some hundred characters has room in memory.
proof fn a_short_text_reads_back(text: Seq<char>, behind: Seq<u8>)
    requires
        text.len() <= 1000,
    ensures
        text_at(text_bytes(text) + behind) == Some((text, behind)),
{
    a_text_is_bounded(text);
    a_text_reads_back(text, behind);
}

proof fn a_text_item_reads_back(text: Seq<char>)
    requires
        text.len() <= 1000,
    ensures
        reads_back(text, text_writer(), text_reader()),
{
    assert forall|behind: Seq<u8>|
        text_reader()(#[trigger] (text_writer()(text) + behind)) == Some((text, behind)) by {
        a_short_text_reads_back(text, behind);
    }
}

proof fn a_header_reads_back(header: HeaderModel)
    requires
        header.name.len() <= 1000,
        header.value.len() <= 1000,
    ensures
        reads_back(header, header_writer(), header_reader()),
{
    assert forall|behind: Seq<u8>|
        header_reader()(#[trigger] (header_writer()(header) + behind)) == Some((header, behind)) by {
        let tail = text_bytes(header.value) + behind;
        a_short_text_reads_back(header.name, tail);
        a_short_text_reads_back(header.value, behind);
        assert(header_writer()(header) + behind =~= text_bytes(header.name) + tail);
    }
}

proof fn a_status_reads_back(parts: StatusParts)
    requires
        parts.0.len() <= 1000,
    ensures
        reads_back(parts, status_writer(), status_reader()),
{
    assert forall|behind: Seq<u8>|
        status_reader()(#[trigger] (status_writer()(parts) + behind)) == Some((parts, behind)) by {
        let c = varint(parts.2 as nat) + behind;
        let b = varint(parts.1 as nat) + c;
        a_short_text_reads_back(parts.0, b);
        numbers_read_back(0, parts.1, 0, c);
        numbers_read_back(0, 0, parts.2, behind);
        assert(status_writer()(parts) + behind =~= text_bytes(parts.0) + b);
    }
}

proof fn a_result_reads_back(parts: ResultParts)
    requires
        parts.0.len() <= 1000,
    ensures
        reads_back(parts, result_writer(), result_reader()),
{
    assert forall|behind: Seq<u8>|
        result_reader()(#[trigger] (result_writer()(parts) + behind)) == Some((parts, behind)) by {
        let c = maybe_bytes(parts.2, u32_writer()) + behind;
        let b = truth_bytes(parts.1) + c;
        a_short_text_reads_back(parts.0, b);
        bytes_read_back(0, parts.1, Seq::empty(), c);
        if let Some(code) = parts.2 {
            numbers_read_back(0, code, 0, behind);
        }
        a_maybe_reads_back(parts.2, u32_writer(), u32_reader(), behind);
        assert(result_writer()(parts) + behind =~= text_bytes(parts.0) + b);
    }
}

#[verifier::spinoff_prover]
proof fn a_head_reads_back(head: HeadModel, behind: Seq<u8>)
    requires
        head.request_id.len() == 16,
        head.headers.len() <= MAX_HEADERS,
        forall|i: int|
            0 <= i < head.headers.len() ==> (#[trigger] head.headers[i]).name.len() <= 1000
                && head.headers[i].value.len() <= 1000,
    ensures
        head_at(head.bytes() + behind) == Some((head, behind)),
        head.bytes().len() > 0,
{
    let e = varint(head.kind as nat) + behind;
    let d = list_bytes(head.headers, header_writer()) + e;
    let c = varint(head.issued_at_ms as nat) + d;
    let b = head.request_id + c;
    numbers_read_back(head.version, 0, 0, b);
    bytes_read_back(0, true, head.request_id, c);
    numbers_read_back(0, 0, head.issued_at_ms, d);
    assert forall|i: int| 0 <= i < head.headers.len() implies reads_back(
        #[trigger] head.headers[i],
        header_writer(),
        header_reader(),
    ) by {
        a_header_reads_back(head.headers[i]);
    }
    a_list_reads_back(head.headers, header_writer(), header_reader(), e);
    numbers_read_back(0, head.kind, 0, behind);
    assert(head.bytes() + behind =~= varint(head.version as nat) + b);
}

proof fn a_listing_reads_back(catalog_version: u64, ids: Seq<Seq<char>>, behind: Seq<u8>)
    requires
        ids.len() <= usize::MAX,
        forall|i: int| 0 <= i < ids.len() ==> (#[trigger] ids[i]).len() <= 1000,
    ensures
        listing_at(listing_bytes(catalog_version, ids) + behind) == Some(
            (catalog_version, ids, behind),
        ),
{
    let b = list_bytes(ids, text_writer()) + behind;
    numbers_read_back(0, 0, catalog_version, b);
    assert forall|i: int| 0 <= i < ids.len() implies reads_back(
        #[trigger] ids[i],
        text_writer(),
        text_reader(),
    ) by {
        a_text_item_reads_back(ids[i]);
    }
    a_list_reads_back(ids, text_writer(), text_reader(), behind);
    assert(listing_bytes(catalog_version, ids) + behind =~= varint(catalog_version as nat) + b);
}

proof fn an_attempt_reads_back(
    attempt: u8,
    boot_nonce: [u8; 16],
    ticket: Option<[u8; 32]>,
    behind: Seq<u8>,
)
    ensures
        attempt_at(attempt_bytes(attempt, boot_nonce@, ticket_bytes(ticket)) + behind) == Some(
            (attempt, boot_nonce@, ticket_bytes(ticket), behind),
        ),
        id_of(boot_nonce@) == boot_nonce,
        ticket_of_bytes(ticket_bytes(ticket)) == ticket,
{
    let value = ticket_bytes(ticket);
    let c = maybe_bytes(value, ticket_writer()) + behind;
    let b = boot_nonce@ + c;
    bytes_read_back(attempt, true, boot_nonce@, c);
    bytes_read_back(attempt, true, boot_nonce@, b);
    if let Some(bytes) = value {
        bytes_read_back(0, true, bytes, behind);
    }
    a_maybe_reads_back(value, ticket_writer(), ticket_reader(), behind);
    ids_are_their_bytes(
        boot_nonce,
        match ticket {
            Some(ticket) => ticket,
            None => key_of(Seq::empty()),
        },
    );
    assert(attempt_bytes(attempt, boot_nonce@, value) + behind =~= seq![attempt] + b);
}

/// Entries without a fault have identifiers.
proof fn entries_have_ids(ids: Seq<Seq<char>>, sound: Seq<bool>, other: ProtocolError, k: int)
    requires
        0 <= k,
        entries_fault(ids, sound, other, k) is None,
    ensures
        forall|i: int| k <= i < ids.len() ==> is_id(#[trigger] ids[i]) && ids[i].len() <= 1000,
    decreases ids.len() - k,
{
    if k < ids.len() {
        entries_have_ids(ids, sound, other, k + 1);
    }
}

#[verifier::spinoff_prover]
proof fn an_operation_reads_back(operation: ClientOperation, behind: Seq<u8>)
    requires
        operation_fault(operation) is None,
    ensures
        ask_in(operation@.kind(), operation@.bytes() + behind) == if behind.len() == 0 {
            Some(operation@)
        } else {
            None
        },
{
    match operation {
        ClientOperation::ListHosts => {
            assert(operation@.bytes() + behind =~= behind);
        },
        ClientOperation::GetStatuses { catalog_version, host_ids } => {
            let ids = texts(host_ids@);
            entries_have_ids(
                ids,
                ids.map_values(|id: Seq<char>| true),
                ProtocolError::Operation,
                0,
            );
            a_listing_reads_back(catalog_version, ids, behind);
        },
        ClientOperation::Wake { catalog_version, host_ids, attempt, boot_nonce, retry_ticket } => {
            let ids = texts(host_ids@);
            entries_have_ids(
                ids,
                ids.map_values(|id: Seq<char>| true),
                ProtocolError::Operation,
                0,
            );
            let rest = attempt_bytes(attempt, boot_nonce@, ticket_bytes(retry_ticket)) + behind;
            a_listing_reads_back(catalog_version, ids, rest);
            an_attempt_reads_back(attempt, boot_nonce, retry_ticket, behind);
            assert(operation@.bytes() + behind =~= listing_bytes(catalog_version, ids) + rest);
        },
    }
}

/// A valid message of a client that was encoded is decoded to itself, and fills
/// one byte at least and a frame at most. With anything behind it, it is refused.
#[verifier::spinoff_prover]
pub proof fn a_client_message_is_read_back(envelope: ClientEnvelope, behind: Seq<u8>)
    requires
        envelope.fault() is None,
        encoded(Some(envelope@.bytes())) is Ok,
        behind.len() > 0,
    ensures
        1 <= envelope@.bytes().len() <= 65536,
        message_in(envelope@.bytes()) == Ok::<MessageModel, ProtocolError>(envelope@),
        message_in(envelope@.bytes() + behind) == Err::<MessageModel, ProtocolError>(
            if envelope@.bytes().len() + behind.len() <= 65536 {
                ProtocolError::Operation
            } else {
                ProtocolError::Limit
            },
        ),
{
    let model = envelope@;
    let head = HeadModel {
        version: model.version,
        request_id: model.request_id@,
        issued_at_ms: model.issued_at_ms,
        headers: model.headers,
        kind: model.operation.kind(),
    };
    let body = model.operation.bytes();
    ids_are_their_bytes(model.request_id, key_of(Seq::empty()));
    a_head_reads_back(head, body);
    a_head_reads_back(head, body + behind);
    an_operation_reads_back(envelope.operation, Seq::empty());
    an_operation_reads_back(envelope.operation, behind);
    assert(body + Seq::<u8>::empty() =~= body);
    assert(model.bytes() + behind =~= head.bytes() + (body + behind));
}

/// The event of a body is the one that was written; with anything behind it there
/// is none.
spec fn event_reads_back(event: EventModel, behind: Seq<u8>) -> bool {
    event_in(event.kind(), event.bytes() + behind) == if behind.len() == 0 {
        Some(event)
    } else {
        None
    }
}

#[verifier::spinoff_prover]
proof fn a_catalogue_reads_back(catalog_version: u64, hosts: Seq<Seq<char>>, behind: Seq<u8>)
    requires
        hosts.len() <= MAX_HOSTS,
        forall|i: int| 0 <= i < hosts.len() ==> (#[trigger] hosts[i]).len() <= 1000,
    ensures
        event_reads_back(EventModel::Hosts { catalog_version, hosts }, behind),
{
    a_listing_reads_back(catalog_version, hosts, behind);
}

#[verifier::spinoff_prover]
proof fn the_parts_of_a_sighting_read_back(
    operation_id: Seq<u8>,
    attempt: u8,
    host_id: Seq<char>,
    observed_at_ms: u64,
    behind: Seq<u8>,
)
    requires
        operation_id.len() == 16,
        host_id.len() <= 1000,
    ensures
        sighting_at(sighting_bytes(operation_id, attempt, host_id, observed_at_ms) + behind)
            == Some((operation_id, attempt, host_id, observed_at_ms, behind)),
{
    let d = varint(observed_at_ms as nat) + behind;
    let c = text_bytes(host_id) + d;
    let b = seq![attempt] + c;
    assert(sighting_bytes(operation_id, attempt, host_id, observed_at_ms) + behind =~= operation_id
        + b);
    bytes_read_back(0, true, operation_id, b);
    bytes_read_back(attempt, true, Seq::empty(), c);
    a_short_text_reads_back(host_id, d);
    numbers_read_back(0, 0, observed_at_ms, behind);
}

#[verifier::spinoff_prover]
proof fn a_sighting_reads_back(
    operation_id: [u8; 16],
    attempt: u8,
    host_id: Seq<char>,
    observed_at_ms: u64,
    behind: Seq<u8>,
)
    requires
        host_id.len() <= 1000,
    ensures
        event_reads_back(
            EventModel::TargetOnline { operation_id, attempt, host_id, observed_at_ms },
            behind,
        ),
{
    the_parts_of_a_sighting_read_back(operation_id@, attempt, host_id, observed_at_ms, behind);
    ids_are_their_bytes(operation_id, key_of(Seq::empty()));
}

#[verifier::spinoff_prover]
proof fn an_error_reads_back(code: ErrorCode, retryable: bool, behind: Seq<u8>)
    ensures
        event_reads_back(EventModel::Error { code, retryable }, behind),
{
    let number = code_number(code);
    let b = truth_bytes(retryable) + behind;
    assert(failure_bytes(number, retryable) + behind =~= varint(number as nat) + b);
    numbers_read_back(0, number, 0, b);
    bytes_read_back(0, retryable, Seq::empty(), behind);
}

#[verifier::spinoff_prover]
proof fn an_event_reads_back(request_id: [u8; 16], event: EventModel, behind: Seq<u8>)
    requires
        event_fault(request_id, event) is None,
    ensures
        event_reads_back(event, behind),
{
    match event {
        EventModel::Hosts { catalog_version, hosts } => {
            entries_have_ids(hosts, hosts.map_values(|id: Seq<char>| true), ProtocolError::Limit, 0);
            a_catalogue_reads_back(catalog_version, hosts, behind);
        },
        EventModel::Statuses { catalog_version, statuses } => {
            some_statuses_read_back(request_id, catalog_version, statuses, behind);
        },
        EventModel::CommandExecuted {
            operation_id,
            attempt,
            retry_ticket,
            deadline_ms,
            results,
        } => {
            a_receipt_reads_back(operation_id, attempt, retry_ticket, deadline_ms, results, behind);
        },
        EventModel::TargetOnline { operation_id, attempt, host_id, observed_at_ms } => {
            a_sighting_reads_back(operation_id, attempt, host_id, observed_at_ms, behind);
        },
        EventModel::Error { code, retryable } => {
            an_error_reads_back(code, retryable, behind);
        },
    }
}

#[verifier::spinoff_prover]
proof fn some_statuses_read_back(
    request_id: [u8; 16],
    catalog_version: u64,
    statuses: Seq<StatusModel>,
    behind: Seq<u8>,
)
    requires
        event_fault(request_id, EventModel::Statuses { catalog_version, statuses }) is None,
    ensures
        event_reads_back(EventModel::Statuses { catalog_version, statuses }, behind),
{
    let ids = statuses.map_values(|s: StatusModel| s.host_id);
    entries_have_ids(
        ids,
        statuses.map_values(|s: StatusModel| s.observed_at_ms != 0),
        ProtocolError::Limit,
        0,
    );
    let parts = statuses.map_values(|s: StatusModel| parts_of_status(s));
    let b = list_bytes(parts, status_writer()) + behind;
    numbers_read_back(0, 0, catalog_version, b);
    assert forall|i: int| 0 <= i < parts.len() implies reads_back(
        #[trigger] parts[i],
        status_writer(),
        status_reader(),
    ) by {
        assert(ids[i].len() <= 1000);
        a_status_reads_back(parts[i]);
    }
    a_list_reads_back(parts, status_writer(), status_reader(), behind);
    assert(statuses_bytes(catalog_version, parts) + behind =~= varint(catalog_version as nat) + b);
    assert forall|i: int| 0 <= i < parts.len() implies state_of((#[trigger] parts[i]).1) is Some by {
    }
    assert(parts.map_values(|p: StatusParts| status_of_parts(p)) =~= statuses);
}

#[verifier::spinoff_prover]
proof fn the_parts_of_a_receipt_read_back(receipt: ReceiptModel, behind: Seq<u8>)
    requires
        receipt.operation_id.len() == 16,
        receipt.retry_ticket.len() == 32,
        receipt.results.len() <= MAX_REQUEST_TARGETS,
        forall|i: int|
            0 <= i < receipt.results.len() ==> (#[trigger] receipt.results[i]).0.len() <= 1000,
    ensures
        receipt_at(receipt.bytes() + behind) == Some((receipt, behind)),
{
    let parts = receipt.results;
    let e = list_bytes(parts, result_writer()) + behind;
    let d = varint(receipt.deadline_ms as nat) + e;
    let c = receipt.retry_ticket + d;
    let b = seq![receipt.attempt] + c;
    assert(receipt.bytes() + behind =~= receipt.operation_id + b);
    bytes_read_back(0, true, receipt.operation_id, b);
    bytes_read_back(receipt.attempt, true, Seq::empty(), c);
    bytes_read_back(0, true, receipt.retry_ticket, d);
    numbers_read_back(0, 0, receipt.deadline_ms, e);
    assert forall|i: int| 0 <= i < parts.len() implies reads_back(
        #[trigger] parts[i],
        result_writer(),
        result_reader(),
    ) by {
        a_result_reads_back(parts[i]);
    }
    a_list_reads_back(parts, result_writer(), result_reader(), behind);
}

#[verifier::spinoff_prover]
proof fn a_receipt_reads_back(
    operation_id: [u8; 16],
    attempt: u8,
    retry_ticket: [u8; 32],
    deadline_ms: u64,
    results: Seq<ResultModel>,
    behind: Seq<u8>,
)
    requires
        results.len() <= MAX_REQUEST_TARGETS,
        entries_fault(
            results.map_values(|r: ResultModel| r.host_id),
            results.map_values(|r: ResultModel| r.accepted == (r.error_code is None)),
            ProtocolError::Limit,
            0,
        ) is None,
    ensures
        event_reads_back(
            EventModel::CommandExecuted {
                operation_id,
                attempt,
                retry_ticket,
                deadline_ms,
                results,
            },
            behind,
        ),
{
    let ids = results.map_values(|r: ResultModel| r.host_id);
    entries_have_ids(
        ids,
        results.map_values(|r: ResultModel| r.accepted == (r.error_code is None)),
        ProtocolError::Limit,
        0,
    );
    let parts = results.map_values(|r: ResultModel| parts_of_result(r));
    let receipt = ReceiptModel {
        operation_id: operation_id@,
        attempt,
        retry_ticket: retry_ticket@,
        deadline_ms,
        results: parts,
    };
    assert forall|i: int| 0 <= i < parts.len() implies (#[trigger] parts[i]).0.len() <= 1000 by {
        assert(ids[i].len() <= 1000);
    }
    the_parts_of_a_receipt_read_back(receipt, behind);
    ids_are_their_bytes(operation_id, retry_ticket);
    assert forall|i: int| 0 <= i < parts.len() implies is_code((#[trigger] parts[i]).2) by {
        assert(parts[i] == parts_of_result(results[i]));
    }
    assert(parts.map_values(|p: ResultParts| result_of_parts(p)) =~= results);
}

/// A valid message of a server that was encoded is decoded to itself, and fills
/// one byte at least and a frame at most. With anything behind it, it is refused.
#[verifier::spinoff_prover]
pub proof fn a_server_message_is_read_back(reply: ReplyModel, behind: Seq<u8>)
    requires
        reply.fault() is None,
        encoded(Some(reply.bytes())) is Ok,
        behind.len() > 0,
    ensures
        1 <= reply.bytes().len() <= 65536,
        reply_in(reply.bytes()) == Ok::<ReplyModel, ProtocolError>(reply),
        reply_in(reply.bytes() + behind) == Err::<ReplyModel, ProtocolError>(
            if reply.bytes().len() + behind.len() <= 65536 {
                ProtocolError::Operation
            } else {
                ProtocolError::Limit
            },
        ),
{
    let head = HeadModel {
        version: reply.version,
        request_id: reply.request_id@,
        issued_at_ms: reply.issued_at_ms,
        headers: reply.headers,
        kind: reply.event.kind(),
    };
    let body = reply.event.bytes();
    assert(reply.bytes() + behind =~= head.bytes() + (body + behind));
    assert(body + Seq::<u8>::empty() =~= body);
    ids_are_their_bytes(reply.request_id, key_of(Seq::empty()));
    a_head_reads_back(head, body);
    a_head_reads_back(head, body + behind);
    an_event_reads_back(reply.request_id, reply.event, Seq::empty());
    an_event_reads_back(reply.request_id, reply.event, behind);
}

/// Items that take so many bytes each take that many for every one of them.
proof fn items_are_bounded<T>(items: Seq<T>, write: spec_fn(T) -> Seq<u8>, each: nat)
    requires
        forall|i: int| 0 <= i < items.len() ==> write(#[trigger] items[i]).len() <= each,
    ensures
        items_bytes(items, write).len() <= each * items.len(),
    decreases items.len(),
{
    if items.len() > 0 {
        let others = items.drop_first();
        assert forall|i: int| 0 <= i < others.len() implies write(#[trigger] others[i]).len()
            <= each by {
            assert(others[i] == items[i + 1]);
        }
        items_are_bounded(others, write, each);
        assert(each + each * (items.len() - 1) == each * items.len()) by (nonlinear_arith);
    }
}

proof fn lists_are_bounded<T>(items: Seq<T>, write: spec_fn(T) -> Seq<u8>, each: nat, most: nat)
    requires
        items.len() <= most <= 1000,
        forall|i: int| 0 <= i < items.len() ==> write(#[trigger] items[i]).len() <= each,
    ensures
        list_bytes(items, write).len() <= 10 + each * most,
{
    items_are_bounded(items, write, each);
    numbers_are_bounded(0, 0, items.len() as u64);
    assert(each * items.len() <= each * most) by (nonlinear_arith)
        requires
            items.len() <= most,
    ;
}

proof fn numbers_are_bounded(small: u16, middle: u32, large: u64)
    ensures
        varint(small as nat).len() <= 3,
        varint(middle as nat).len() <= 5,
        varint(large as nat).len() <= 10,
{
    numbers_fit(small, large, 0);
    assert(fits(middle as nat, 5, 15)) by {
        reveal_with_fuel(fits, 6);
    }
    a_varint_reads_back(small as nat, 3, 3, Seq::empty());
    a_varint_reads_back(middle as nat, 5, 15, Seq::empty());
    a_varint_reads_back(large as nat, 10, 1, Seq::empty());
}

proof fn an_id_is_bounded(id: Seq<char>)
    requires
        is_id(id),
    ensures
        text_bytes(id).len() <= 74,
{
    id_bytes(id);
    numbers_are_bounded(0, 0, id.len() as u64);
}

proof fn a_header_is_bounded(header: HeaderModel)
    requires
        is_header(header),
    ensures
        header_writer()(header).len() <= 308,
{
    assert(vstd::utf8::is_ascii_chars(header.name)) by {
        assert forall|i: int| 0 <= i < header.name.len() implies '\0' <= #[trigger] header.name[i]
            <= '\u{7f}' by {
            assert(is_name_char(header.name[i]));
        }
    }
    assert(vstd::utf8::is_ascii_chars(header.value)) by {
        assert forall|i: int| 0 <= i < header.value.len() implies '\0' <= #[trigger] header.value[i]
            <= '\u{7f}' by {
            assert(is_printable(header.value[i]));
        }
    }
    vstd::utf8::is_ascii_chars_encode_utf8(header.name);
    vstd::utf8::is_ascii_chars_encode_utf8(header.value);
    numbers_are_bounded(0, 0, header.name.len() as u64);
    numbers_are_bounded(0, 0, header.value.len() as u64);
}

#[verifier::spinoff_prover]
proof fn a_head_is_bounded(head: HeadModel)
    requires
        head.request_id.len() == 16,
        headers_fault(head.headers) is None,
    ensures
        head.bytes().len() <= 9900,
{
    numbers_are_bounded(head.version, head.kind, head.issued_at_ms);
    assert forall|i: int| 0 <= i < head.headers.len() implies header_writer()(
        #[trigger] head.headers[i],
    ).len() <= 308 by {
        a_header_is_bounded(head.headers[i]);
    }
    lists_are_bounded(head.headers, header_writer(), 308, MAX_HEADERS as nat);
}

#[verifier::spinoff_prover]
proof fn an_event_is_bounded(request_id: [u8; 16], event: EventModel)
    requires
        event_fault(request_id, event) is None,
    ensures
        event.bytes().len() <= 12000,
{
    match event {
        EventModel::Hosts { catalog_version, hosts } => {
            entries_have_ids(hosts, hosts.map_values(|id: Seq<char>| true), ProtocolError::Limit, 0);
            numbers_are_bounded(0, 0, catalog_version);
            assert forall|i: int| 0 <= i < hosts.len() implies text_writer()(
                #[trigger] hosts[i],
            ).len() <= 74 by {
                an_id_is_bounded(hosts[i]);
            }
            lists_are_bounded(hosts, text_writer(), 74, MAX_HOSTS as nat);
        },
        EventModel::Statuses { catalog_version, statuses } => {
            let ids = statuses.map_values(|s: StatusModel| s.host_id);
            entries_have_ids(
                ids,
                statuses.map_values(|s: StatusModel| s.observed_at_ms != 0),
                ProtocolError::Limit,
                0,
            );
            let parts = statuses.map_values(|s: StatusModel| parts_of_status(s));
            numbers_are_bounded(0, 0, catalog_version);
            assert forall|i: int| 0 <= i < parts.len() implies status_writer()(
                #[trigger] parts[i],
            ).len() <= 89 by {
                assert(is_id(ids[i]));
                an_id_is_bounded(ids[i]);
                numbers_are_bounded(0, parts[i].1, parts[i].2);
            }
            lists_are_bounded(parts, status_writer(), 89, MAX_HOSTS as nat);
        },
        EventModel::CommandExecuted {
            operation_id,
            attempt,
            retry_ticket,
            deadline_ms,
            results,
        } => {
            let ids = results.map_values(|r: ResultModel| r.host_id);
            entries_have_ids(
                ids,
                results.map_values(|r: ResultModel| r.accepted == (r.error_code is None)),
                ProtocolError::Limit,
                0,
            );
            let parts = results.map_values(|r: ResultModel| parts_of_result(r));
            numbers_are_bounded(0, 0, deadline_ms);
            assert forall|i: int| 0 <= i < parts.len() implies result_writer()(
                #[trigger] parts[i],
            ).len() <= 81 by {
                assert(is_id(ids[i]));
                an_id_is_bounded(ids[i]);
                if let Some(code) = parts[i].2 {
                    numbers_are_bounded(0, code, 0);
                }
            }
            lists_are_bounded(parts, result_writer(), 81, MAX_REQUEST_TARGETS as nat);
        },
        EventModel::TargetOnline { operation_id, attempt, host_id, observed_at_ms } => {
            an_id_is_bounded(host_id);
            numbers_are_bounded(0, 0, observed_at_ms);
        },
        EventModel::Error { code, retryable } => {
            numbers_are_bounded(0, code_number(code), 0);
        },
    }
}

/// Every valid message of a server fits in the payload of a record, and so it is
/// never too large to be sent.
pub proof fn a_valid_reply_fits(reply: ReplyModel)
    requires
        reply.fault() is None,
    ensures
        reply.bytes().len() <= 32768,
        encoded(Some(reply.bytes())) == Ok::<Seq<u8>, ProtocolError>(reply.bytes()),
{
    a_head_is_bounded(
        HeadModel {
            version: reply.version,
            request_id: reply.request_id@,
            issued_at_ms: reply.issued_at_ms,
            headers: reply.headers,
            kind: reply.event.kind(),
        },
    );
    an_event_is_bounded(reply.request_id, reply.event);
}

} // verus!
