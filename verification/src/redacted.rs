//! Values in words for a log, without what must not be disclosed.
//!
//! Settings, credentials and messages hold keys, secrets and tickets. A
//! description names them and never shows them.

use crate::channel::SecureConnection;
use crate::client::{ClientCommand, ClientConnectionErrorCode, ClientEvent};
use crate::config::{
    AllowedClient, AppConfig, ClientConfig, HostConfig, SecurityConfig, ServerConfig,
};
use crate::credential::CredentialBundle;
use crate::crypto::{hex_encode, hex_text};
use crate::protocol::{
    header_models, ClientEnvelope, ClientOperation, ErrorCode, Header, HeaderModel, ServerEnvelope,
    ServerEvent,
};
use crate::security::{
    fingerprint, fingerprint_of, ClientHandshakeConfig, Identity, ServerHandshakeConfig,
};
use crate::text::{decimal, decimal_text, joined, texts};
use vstd::prelude::*;

verus! {

/// A field and what is shown of it.
pub type Shown = (Seq<char>, Seq<char>);

/// The fields one after the other.
pub open spec fn fields_text(fields: Seq<Shown>) -> Seq<char>
    decreases fields.len(),
{
    if fields.len() == 0 {
        Seq::empty()
    } else {
        let front = fields.drop_last();
        let last = fields.last().0 + ": "@ + fields.last().1;
        if front.len() == 0 {
            last
        } else {
            fields_text(front) + ", "@ + last
        }
    }
}

/// A name and its fields.
pub open spec fn struct_text(name: Seq<char>, fields: Seq<Shown>) -> Seq<char> {
    name + " { "@ + fields_text(fields) + " }"@
}

/// A name and what it wraps.
pub open spec fn tuple_text(name: Seq<char>, value: Seq<char>) -> Seq<char> {
    name + "("@ + value + ")"@
}

fn write_tuple(name: &str, value: &str) -> (r: String)
    ensures
        r@ == tuple_text(name@, value@),
{
    let mut out: String = joined(name, "(");
    out.append(value);
    out.append(")");
    out
}

/// The items between commas.
pub open spec fn items_text(items: Seq<Seq<char>>) -> Seq<char>
    decreases items.len(),
{
    if items.len() == 0 {
        Seq::empty()
    } else if items.len() == 1 {
        items[0]
    } else {
        items_text(items.drop_last()) + ", "@ + items.last()
    }
}

pub open spec fn list_text(items: Seq<Seq<char>>) -> Seq<char> {
    "["@ + items_text(items) + "]"@
}

#[verifier::loop_isolation(false)]
fn write_list(items: &Vec<String>) -> (r: String)
    ensures
        r@ == list_text(texts(items@)),
{
    let ghost all = texts(items@);
    let mut out: String = String::new();
    let mut i: usize = 0;
    assert(all.take(0) =~= Seq::<Seq<char>>::empty());
    assert(out@ =~= Seq::<char>::empty());
    while i < items.len()
        invariant
            i <= items@.len(),
            out@ == items_text(all.take(i as int)),
        decreases items@.len() - i,
    {
        assert(all.take(i + 1).drop_last() =~= all.take(i as int));
        assert(all.take(i + 1).last() == items@[i as int]@);
        if i > 0 {
            out.append(", ");
        }
        out.append(&items[i]);
        assert(out@ =~= items_text(all.take(i + 1)));
        i += 1;
    }
    assert(all.take(i as int) =~= all);
    let mut text: String = joined("[", &out);
    text.append("]");
    text
}

/// A text as `Debug` shows it: between quotes, with what cannot be printed
/// escaped.
pub uninterp spec fn debug_text(text: Seq<char>) -> Seq<char>;

/// `Debug` of `str`: a function of the text alone.
#[verifier::external_body]
fn quote(text: &str) -> (r: String)
    ensures
        r@ == debug_text(text@),
{
    format!("{:?}", text)
}

/// A span of so many nanoseconds as `Debug` shows it, with its unit.
pub uninterp spec fn span_text(nanoseconds: u64) -> Seq<char>;

/// `Debug` of `std::time::Duration`: a function of the span alone.
#[verifier::external_body]
fn write_span(nanoseconds: u64) -> (r: String)
    ensures
        r@ == span_text(nanoseconds),
{
    format!("{:?}", std::time::Duration::from_nanos(nanoseconds))
}

/// What is shown of a secret.
pub open spec fn secret() -> Seq<char> {
    "\"<redacted>\""@
}

pub open spec fn number_text(n: int) -> Seq<char> {
    decimal(n as nat)
}

pub open spec fn truth(b: bool) -> Seq<char> {
    if b {
        "true"@
    } else {
        "false"@
    }
}

/// A description that is being made.
struct Description {
    name: String,
    text: String,
    empty: bool,
    fields: Ghost<Seq<Shown>>,
}

impl Description {
    spec fn wf(self) -> bool {
        &&& self.text@ == fields_text(self.fields@)
        &&& self.empty == (self.fields@.len() == 0)
    }

    fn new(name: &str) -> (r: Description)
        ensures
            r.wf(),
            r.name@ == name@,
            r.fields@ == Seq::<Shown>::empty(),
    {
        let text: String = String::new();
        assert(text@ =~= Seq::<char>::empty());
        Description { name: name.to_owned(), text, empty: true, fields: Ghost(Seq::empty()) }
    }

    fn with(&mut self, field: &str, value: &str)
        requires
            old(self).wf(),
        ensures
            final(self).wf(),
            final(self).name@ == old(self).name@,
            final(self).fields@ == old(self).fields@.push((field@, value@)),
    {
        let ghost more = self.fields@.push((field@, value@));
        assert(more.drop_last() =~= self.fields@);
        let mut last: String = joined(field, ": ");
        last.append(value);
        if self.empty {
            self.text = last;
        } else {
            self.text.append(", ");
            self.text.append(&last);
        }
        self.empty = false;
        self.fields = Ghost(more);
    }

    fn text(&mut self, field: &str, value: &str)
        requires
            old(self).wf(),
        ensures
            final(self).wf(),
            final(self).name@ == old(self).name@,
            final(self).fields@ == old(self).fields@.push((field@, debug_text(value@))),
    {
        self.with(field, &quote(value));
    }

    fn number(&mut self, field: &str, value: u64)
        requires
            old(self).wf(),
        ensures
            final(self).wf(),
            final(self).name@ == old(self).name@,
            final(self).fields@ == old(self).fields@.push((field@, number_text(value as int))),
    {
        self.with(field, &decimal_text(value));
    }

    fn flag(&mut self, field: &str, value: bool)
        requires
            old(self).wf(),
        ensures
            final(self).wf(),
            final(self).name@ == old(self).name@,
            final(self).fields@ == old(self).fields@.push((field@, truth(value))),
    {
        if value {
            self.with(field, "true");
        } else {
            self.with(field, "false");
        }
    }

    fn conceal(&mut self, field: &str)
        requires
            old(self).wf(),
        ensures
            final(self).wf(),
            final(self).name@ == old(self).name@,
            final(self).fields@ == old(self).fields@.push((field@, secret())),
    {
        self.with(field, "\"<redacted>\"");
    }

    fn finish(self) -> (r: String)
        requires
            self.wf(),
        ensures
            r@ == struct_text(self.name@, self.fields@),
    {
        let mut out: String = joined(&self.name, " { ");
        out.append(&self.text);
        out.append(" }");
        out
    }
}

/// The names of headers.
pub open spec fn shown_names(headers: Seq<HeaderModel>) -> Seq<Seq<char>> {
    headers.map_values(|h: HeaderModel| debug_text(h.name))
}

fn describe_names(headers: &Vec<Header>) -> (r: Vec<String>)
    ensures
        texts(r@) == shown_names(header_models(headers@)),
{
    let mut out: Vec<String> = Vec::new();
    let mut i: usize = 0;
    while i < headers.len()
        invariant
            i <= headers@.len(),
            out@.len() == i,
            forall|k: int| 0 <= k < i ==> (#[trigger] out@[k])@ == debug_text(headers@[k].name@),
        decreases headers@.len() - i,
    {
        out.push(quote(&headers[i].name));
        i += 1;
    }
    assert(texts(out@) =~= shown_names(header_models(headers@)));
    out
}

pub open spec fn shown_texts(list: Seq<Seq<char>>) -> Seq<Seq<char>> {
    list.map_values(|text: Seq<char>| debug_text(text))
}

fn describe_texts(list: &Vec<String>) -> (r: Vec<String>)
    ensures
        texts(r@) == shown_texts(texts(list@)),
{
    let mut out: Vec<String> = Vec::new();
    let mut i: usize = 0;
    while i < list.len()
        invariant
            i <= list@.len(),
            out@.len() == i,
            forall|k: int| 0 <= k < i ==> (#[trigger] out@[k])@ == debug_text(list@[k]@),
        decreases list@.len() - i,
    {
        out.push(quote(&list[i]));
        i += 1;
    }
    assert(texts(out@) =~= shown_texts(texts(list@)));
    out
}

pub open spec fn shown_clients(clients: Seq<AllowedClient>) -> Seq<Seq<char>> {
    clients.map_values(|c: AllowedClient| c.described())
}

fn describe_clients(clients: &Vec<AllowedClient>) -> (r: Vec<String>)
    ensures
        texts(r@) == shown_clients(clients@),
{
    let mut out: Vec<String> = Vec::new();
    let mut i: usize = 0;
    while i < clients.len()
        invariant
            i <= clients@.len(),
            out@.len() == i,
            forall|k: int| 0 <= k < i ==> (#[trigger] out@[k])@ == clients@[k].described(),
        decreases clients@.len() - i,
    {
        out.push(clients[i].describe());
        i += 1;
    }
    assert(texts(out@) =~= shown_clients(clients@));
    out
}

pub open spec fn shown_hosts(hosts: Seq<HostConfig>) -> Seq<Seq<char>> {
    hosts.map_values(|h: HostConfig| h.described())
}

fn describe_hosts(hosts: &Vec<HostConfig>) -> (r: Vec<String>)
    ensures
        texts(r@) == shown_hosts(hosts@),
{
    let mut out: Vec<String> = Vec::new();
    let mut i: usize = 0;
    while i < hosts.len()
        invariant
            i <= hosts@.len(),
            out@.len() == i,
            forall|k: int| 0 <= k < i ==> (#[trigger] out@[k])@ == hosts@[k].described(),
        decreases hosts@.len() - i,
    {
        out.push(hosts[i].describe());
        i += 1;
    }
    assert(texts(out@) =~= shown_hosts(hosts@));
    out
}

impl AllowedClient {
    pub open spec fn described(self) -> Seq<char> {
        struct_text(
            "AllowedClient"@,
            seq![
                ("client_id"@, debug_text(self.client_id@)),
                ("static_public_key"@, debug_text(self.static_public_key@)),
                ("allowed_hosts"@, list_text(shown_texts(texts(self.allowed_hosts@)))),
            ],
        )
    }

    /// The value in words.
    pub fn describe(&self) -> (r: String)
        ensures
            r@ == self.described(),
    {
        let mut d: Description = Description::new("AllowedClient");
        d.text("client_id", &self.client_id);
        d.text("static_public_key", &self.static_public_key);
        d.with("allowed_hosts", &write_list(&describe_texts(&self.allowed_hosts)));
        assert(d.fields@ =~= seq![
            ("client_id"@, debug_text(self.client_id@)),
            ("static_public_key"@, debug_text(self.static_public_key@)),
            ("allowed_hosts"@, list_text(shown_texts(texts(self.allowed_hosts@)))),
        ]);
        d.finish()
    }
}

impl HostConfig {
    pub open spec fn described(self) -> Seq<char> {
        struct_text(
            "HostConfig"@,
            seq![
                ("hostname"@, debug_text(self.hostname@)),
                ("display_name"@, debug_text(self.display_name@)),
                ("mac"@, debug_text(self.mac@)),
                ("ip"@, debug_text(self.ip@)),
                ("wol_port"@, number_text(self.wol_port as int)),
                ("probe_timeout_ms"@, number_text(self.probe_timeout_ms as int)),
                ("probe_port"@, number_text(self.probe_port as int)),
                ("wol_ipv6_interface"@, number_text(self.wol_ipv6_interface as int)),
            ],
        )
    }

    /// The value in words.
    pub fn describe(&self) -> (r: String)
        ensures
            r@ == self.described(),
    {
        let mut d: Description = Description::new("HostConfig");
        d.text("hostname", &self.hostname);
        d.text("display_name", &self.display_name);
        d.text("mac", &self.mac);
        d.text("ip", &self.ip);
        d.number("wol_port", self.wol_port as u64);
        d.number("probe_timeout_ms", self.probe_timeout_ms);
        d.number("probe_port", self.probe_port as u64);
        d.number("wol_ipv6_interface", self.wol_ipv6_interface as u64);
        assert(d.fields@ =~= seq![
            ("hostname"@, debug_text(self.hostname@)),
            ("display_name"@, debug_text(self.display_name@)),
            ("mac"@, debug_text(self.mac@)),
            ("ip"@, debug_text(self.ip@)),
            ("wol_port"@, number_text(self.wol_port as int)),
            ("probe_timeout_ms"@, number_text(self.probe_timeout_ms as int)),
            ("probe_port"@, number_text(self.probe_port as int)),
            ("wol_ipv6_interface"@, number_text(self.wol_ipv6_interface as int)),
        ]);
        d.finish()
    }
}

/// The name of a code of a failed connection.
pub open spec fn code_word(code: ClientConnectionErrorCode) -> Seq<char> {
    match code {
        ClientConnectionErrorCode::Resolve => "Resolve"@,
        ClientConnectionErrorCode::Connect => "Connect"@,
        ClientConnectionErrorCode::Handshake => "Handshake"@,
        ClientConnectionErrorCode::Transport => "Transport"@,
        ClientConnectionErrorCode::Protocol => "Protocol"@,
    }
}

fn write_code(code: ClientConnectionErrorCode) -> (r: &'static str)
    ensures
        r@ == code_word(code),
{
    match code {
        ClientConnectionErrorCode::Resolve => "Resolve",
        ClientConnectionErrorCode::Connect => "Connect",
        ClientConnectionErrorCode::Handshake => "Handshake",
        ClientConnectionErrorCode::Transport => "Transport",
        ClientConnectionErrorCode::Protocol => "Protocol",
    }
}

pub open spec fn error_name(code: ErrorCode) -> Seq<char> {
    match code {
        ErrorCode::BadRequest => "BadRequest"@,
        ErrorCode::Unauthorized => "Unauthorized"@,
        ErrorCode::Replay => "Replay"@,
        ErrorCode::RateLimited => "RateLimited"@,
        ErrorCode::StaleCatalog => "StaleCatalog"@,
        ErrorCode::Busy => "Busy"@,
        ErrorCode::Internal => "Internal"@,
    }
}

fn name_error(code: ErrorCode) -> (r: &'static str)
    ensures
        r@ == error_name(code),
{
    match code {
        ErrorCode::BadRequest => "BadRequest",
        ErrorCode::Unauthorized => "Unauthorized",
        ErrorCode::Replay => "Replay",
        ErrorCode::RateLimited => "RateLimited",
        ErrorCode::StaleCatalog => "StaleCatalog",
        ErrorCode::Busy => "Busy",
        ErrorCode::Internal => "Internal",
    }
}

/// The digest of a key, where there is one.
pub open spec fn pin_text(key: Option<[u8; 32]>) -> Seq<char> {
    match key {
        Some(key) => tuple_text("Some"@, debug_text(fingerprint_of(key@))),
        None => "None"@,
    }
}

impl Header {
    pub open spec fn described(self) -> Seq<char> {
        struct_text(
            "Header"@,
            seq![
                ("name"@, debug_text(self.name@)),
                ("value"@, secret()),
            ],
        )
    }

    /// The value in words.
    pub fn describe(&self) -> (r: String)
        ensures
            r@ == self.described(),
    {
        let mut d: Description = Description::new("Header");
        d.text("name", &self.name);
        d.conceal("value");
        assert(d.fields@ =~= seq![
            ("name"@, debug_text(self.name@)),
            ("value"@, secret()),
        ]);
        d.finish()
    }
}

impl ClientOperation {
    pub open spec fn described(self) -> Seq<char> {
        match self {
            ClientOperation::ListHosts => "ListHosts"@,
            ClientOperation::GetStatuses { catalog_version, host_ids } => struct_text(
                "GetStatuses"@,
                seq![
                    ("catalog_version"@, number_text(catalog_version as int)),
                    ("host_count"@, number_text(host_ids@.len() as int)),
                ],
            ),
            ClientOperation::Wake { catalog_version, host_ids, attempt, .. } => struct_text(
                "Wake"@,
                seq![
                    ("catalog_version"@, number_text(catalog_version as int)),
                    ("host_count"@, number_text(host_ids@.len() as int)),
                    ("attempt"@, number_text(attempt as int)),
                    ("boot_nonce"@, secret()),
                    ("retry_ticket"@, secret()),
                ],
            ),
        }
    }

    /// The value in words.
    pub fn describe(&self) -> (r: String)
        ensures
            r@ == self.described(),
    {
        match self {
            ClientOperation::ListHosts => "ListHosts".to_owned(),
            ClientOperation::GetStatuses { catalog_version, host_ids } => {
                let mut d: Description = Description::new("GetStatuses");
                d.number("catalog_version", *catalog_version);
                d.number("host_count", host_ids.len() as u64);
                assert(d.fields@ =~= seq![
                    ("catalog_version"@, number_text(*catalog_version as int)),
                    ("host_count"@, number_text(host_ids@.len() as int)),
                ]);
                d.finish()
            },
            ClientOperation::Wake { catalog_version, host_ids, attempt, .. } => {
                let mut d: Description = Description::new("Wake");
                d.number("catalog_version", *catalog_version);
                d.number("host_count", host_ids.len() as u64);
                d.number("attempt", *attempt as u64);
                d.conceal("boot_nonce");
                d.conceal("retry_ticket");
                assert(d.fields@ =~= seq![
                    ("catalog_version"@, number_text(*catalog_version as int)),
                    ("host_count"@, number_text(host_ids@.len() as int)),
                    ("attempt"@, number_text(*attempt as int)),
                    ("boot_nonce"@, secret()),
                    ("retry_ticket"@, secret()),
                ]);
                d.finish()
            },
        }
    }
}

impl ClientEnvelope {
    pub open spec fn described(self) -> Seq<char> {
        struct_text(
            "ClientEnvelope"@,
            seq![
                ("version"@, number_text(self.version as int)),
                ("request_id"@, debug_text(hex_text(self.request_id@))),
                ("issued_at_ms"@, number_text(self.issued_at_ms as int)),
                ("header_count"@, number_text(self.headers@.len() as int)),
                ("operation"@, self.operation.described()),
            ],
        )
    }

    /// The value in words.
    pub fn describe(&self) -> (r: String)
        ensures
            r@ == self.described(),
    {
        let mut d: Description = Description::new("ClientEnvelope");
        d.number("version", self.version as u64);
        d.text("request_id", &hex_encode(&self.request_id));
        d.number("issued_at_ms", self.issued_at_ms);
        d.number("header_count", self.headers.len() as u64);
        d.with("operation", &self.operation.describe());
        assert(d.fields@ =~= seq![
            ("version"@, number_text(self.version as int)),
            ("request_id"@, debug_text(hex_text(self.request_id@))),
            ("issued_at_ms"@, number_text(self.issued_at_ms as int)),
            ("header_count"@, number_text(self.headers@.len() as int)),
            ("operation"@, self.operation.described()),
        ]);
        d.finish()
    }
}

impl ServerEvent {
    pub open spec fn described(self) -> Seq<char> {
        match self {
            ServerEvent::Hosts { catalog_version, hosts } => struct_text(
                "Hosts"@,
                seq![
                    ("catalog_version"@, number_text(catalog_version as int)),
                    ("host_count"@, number_text(hosts@.len() as int)),
                ],
            ),
            ServerEvent::Statuses { catalog_version, statuses } => struct_text(
                "Statuses"@,
                seq![
                    ("catalog_version"@, number_text(catalog_version as int)),
                    ("status_count"@, number_text(statuses@.len() as int)),
                ],
            ),
            ServerEvent::CommandExecuted { operation_id, attempt, deadline_ms, results, .. } => struct_text(
                "CommandExecuted"@,
                seq![
                    ("operation_id"@, debug_text(hex_text(operation_id@))),
                    ("attempt"@, number_text(attempt as int)),
                    ("deadline_ms"@, number_text(deadline_ms as int)),
                    ("result_count"@, number_text(results@.len() as int)),
                    ("retry_ticket"@, secret()),
                ],
            ),
            ServerEvent::TargetOnline { operation_id, attempt, host_id, observed_at_ms } => struct_text(
                "TargetOnline"@,
                seq![
                    ("operation_id"@, debug_text(hex_text(operation_id@))),
                    ("attempt"@, number_text(attempt as int)),
                    ("host_id"@, debug_text(host_id@)),
                    ("observed_at_ms"@, number_text(observed_at_ms as int)),
                ],
            ),
            ServerEvent::Error { code, retryable } => struct_text(
                "Error"@,
                seq![
                    ("code"@, error_name(code)),
                    ("retryable"@, truth(retryable)),
                ],
            ),
        }
    }

    /// The value in words.
    pub fn describe(&self) -> (r: String)
        ensures
            r@ == self.described(),
    {
        match self {
            ServerEvent::Hosts { catalog_version, hosts } => {
                let mut d: Description = Description::new("Hosts");
                d.number("catalog_version", *catalog_version);
                d.number("host_count", hosts.len() as u64);
                assert(d.fields@ =~= seq![
                    ("catalog_version"@, number_text(*catalog_version as int)),
                    ("host_count"@, number_text(hosts@.len() as int)),
                ]);
                d.finish()
            },
            ServerEvent::Statuses { catalog_version, statuses } => {
                let mut d: Description = Description::new("Statuses");
                d.number("catalog_version", *catalog_version);
                d.number("status_count", statuses.len() as u64);
                assert(d.fields@ =~= seq![
                    ("catalog_version"@, number_text(*catalog_version as int)),
                    ("status_count"@, number_text(statuses@.len() as int)),
                ]);
                d.finish()
            },
            ServerEvent::CommandExecuted { operation_id, attempt, deadline_ms, results, .. } => {
                let mut d: Description = Description::new("CommandExecuted");
                d.text("operation_id", &hex_encode(operation_id));
                d.number("attempt", *attempt as u64);
                d.number("deadline_ms", *deadline_ms);
                d.number("result_count", results.len() as u64);
                d.conceal("retry_ticket");
                assert(d.fields@ =~= seq![
                    ("operation_id"@, debug_text(hex_text(operation_id@))),
                    ("attempt"@, number_text(*attempt as int)),
                    ("deadline_ms"@, number_text(*deadline_ms as int)),
                    ("result_count"@, number_text(results@.len() as int)),
                    ("retry_ticket"@, secret()),
                ]);
                d.finish()
            },
            ServerEvent::TargetOnline { operation_id, attempt, host_id, observed_at_ms } => {
                let mut d: Description = Description::new("TargetOnline");
                d.text("operation_id", &hex_encode(operation_id));
                d.number("attempt", *attempt as u64);
                d.text("host_id", host_id);
                d.number("observed_at_ms", *observed_at_ms);
                assert(d.fields@ =~= seq![
                    ("operation_id"@, debug_text(hex_text(operation_id@))),
                    ("attempt"@, number_text(*attempt as int)),
                    ("host_id"@, debug_text(host_id@)),
                    ("observed_at_ms"@, number_text(*observed_at_ms as int)),
                ]);
                d.finish()
            },
            ServerEvent::Error { code, retryable } => {
                let mut d: Description = Description::new("Error");
                d.with("code", name_error(*code));
                d.flag("retryable", *retryable);
                assert(d.fields@ =~= seq![
                    ("code"@, error_name(*code)),
                    ("retryable"@, truth(*retryable)),
                ]);
                d.finish()
            },
        }
    }
}

impl ServerEnvelope {
    pub open spec fn described(self) -> Seq<char> {
        struct_text(
            "ServerEnvelope"@,
            seq![
                ("version"@, number_text(self.version as int)),
                ("request_id"@, debug_text(hex_text(self.request_id@))),
                ("issued_at_ms"@, number_text(self.issued_at_ms as int)),
                ("header_count"@, number_text(self.headers@.len() as int)),
                ("event"@, self.event.described()),
            ],
        )
    }

    /// The value in words.
    pub fn describe(&self) -> (r: String)
        ensures
            r@ == self.described(),
    {
        let mut d: Description = Description::new("ServerEnvelope");
        d.number("version", self.version as u64);
        d.text("request_id", &hex_encode(&self.request_id));
        d.number("issued_at_ms", self.issued_at_ms);
        d.number("header_count", self.headers.len() as u64);
        d.with("event", &self.event.describe());
        assert(d.fields@ =~= seq![
            ("version"@, number_text(self.version as int)),
            ("request_id"@, debug_text(hex_text(self.request_id@))),
            ("issued_at_ms"@, number_text(self.issued_at_ms as int)),
            ("header_count"@, number_text(self.headers@.len() as int)),
            ("event"@, self.event.described()),
        ]);
        d.finish()
    }
}

impl ClientCommand {
    pub open spec fn described(self) -> Seq<char> {
        match self {
            ClientCommand::Refresh => "Refresh"@,
            ClientCommand::Wake { host_ids, catalog_version, operation_id, attempt, .. } => struct_text(
                "Wake"@,
                seq![
                    ("host_count"@, number_text(host_ids@.len() as int)),
                    ("catalog_version"@, number_text(catalog_version as int)),
                    ("operation_id"@, debug_text(hex_text(operation_id@))),
                    ("attempt"@, number_text(attempt as int)),
                    ("retry_ticket"@, secret()),
                ],
            ),
            ClientCommand::Shutdown => "Shutdown"@,
        }
    }

    /// The value in words.
    pub fn describe(&self) -> (r: String)
        ensures
            r@ == self.described(),
    {
        match self {
            ClientCommand::Refresh => "Refresh".to_owned(),
            ClientCommand::Wake { host_ids, catalog_version, operation_id, attempt, .. } => {
                let mut d: Description = Description::new("Wake");
                d.number("host_count", host_ids.len() as u64);
                d.number("catalog_version", *catalog_version);
                d.text("operation_id", &hex_encode(operation_id));
                d.number("attempt", *attempt as u64);
                d.conceal("retry_ticket");
                assert(d.fields@ =~= seq![
                    ("host_count"@, number_text(host_ids@.len() as int)),
                    ("catalog_version"@, number_text(*catalog_version as int)),
                    ("operation_id"@, debug_text(hex_text(operation_id@))),
                    ("attempt"@, number_text(*attempt as int)),
                    ("retry_ticket"@, secret()),
                ]);
                d.finish()
            },
            ClientCommand::Shutdown => "Shutdown".to_owned(),
        }
    }
}

impl ClientEvent {
    pub open spec fn described(self) -> Seq<char> {
        match self {
            ClientEvent::Connecting { attempt } => struct_text(
                "Connecting"@,
                seq![
                    ("attempt"@, number_text(attempt as int)),
                ],
            ),
            ClientEvent::ConnectionFailed { attempt, code, retry_after, .. } => struct_text(
                "ConnectionFailed"@,
                seq![
                    ("attempt"@, number_text(attempt as int)),
                    ("code"@, code_word(code)),
                    ("retry_after"@, span_text(retry_after)),
                ],
            ),
            ClientEvent::Connected { peer, server_fingerprint } => struct_text(
                "Connected"@,
                seq![
                    ("peer"@, peer@),
                    ("server_fingerprint"@, debug_text(server_fingerprint@)),
                ],
            ),
            ClientEvent::Hosts { catalog_version, hosts } => struct_text(
                "Hosts"@,
                seq![
                    ("catalog_version"@, number_text(catalog_version as int)),
                    ("host_count"@, number_text(hosts@.len() as int)),
                ],
            ),
            ClientEvent::Statuses { catalog_version, statuses } => struct_text(
                "Statuses"@,
                seq![
                    ("catalog_version"@, number_text(catalog_version as int)),
                    ("status_count"@, number_text(statuses@.len() as int)),
                ],
            ),
            ClientEvent::CommandExecuted { operation_id, attempt, deadline_ms, results, .. } => struct_text(
                "CommandExecuted"@,
                seq![
                    ("operation_id"@, debug_text(hex_text(operation_id@))),
                    ("attempt"@, number_text(attempt as int)),
                    ("deadline_ms"@, number_text(deadline_ms as int)),
                    ("result_count"@, number_text(results@.len() as int)),
                    ("retry_ticket"@, secret()),
                ],
            ),
            ClientEvent::TargetOnline { operation_id, attempt, host_id } => struct_text(
                "TargetOnline"@,
                seq![
                    ("operation_id"@, debug_text(hex_text(operation_id@))),
                    ("attempt"@, number_text(attempt as int)),
                    ("host_id"@, debug_text(host_id@)),
                ],
            ),
            ClientEvent::Error(text) => tuple_text("Error"@, debug_text(text@)),
            ClientEvent::Disconnected => "Disconnected"@,
        }
    }

    /// The value in words.
    pub fn describe(&self) -> (r: String)
        ensures
            r@ == self.described(),
    {
        match self {
            ClientEvent::Connecting { attempt } => {
                let mut d: Description = Description::new("Connecting");
                d.number("attempt", *attempt as u64);
                assert(d.fields@ =~= seq![
                    ("attempt"@, number_text(*attempt as int)),
                ]);
                d.finish()
            },
            ClientEvent::ConnectionFailed { attempt, code, retry_after, .. } => {
                let mut d: Description = Description::new("ConnectionFailed");
                d.number("attempt", *attempt as u64);
                d.with("code", write_code(*code));
                d.with("retry_after", &write_span(*retry_after));
                assert(d.fields@ =~= seq![
                    ("attempt"@, number_text(*attempt as int)),
                    ("code"@, code_word(*code)),
                    ("retry_after"@, span_text(*retry_after)),
                ]);
                d.finish()
            },
            ClientEvent::Connected { peer, server_fingerprint } => {
                let mut d: Description = Description::new("Connected");
                d.with("peer", peer);
                d.text("server_fingerprint", server_fingerprint);
                assert(d.fields@ =~= seq![
                    ("peer"@, peer@),
                    ("server_fingerprint"@, debug_text(server_fingerprint@)),
                ]);
                d.finish()
            },
            ClientEvent::Hosts { catalog_version, hosts } => {
                let mut d: Description = Description::new("Hosts");
                d.number("catalog_version", *catalog_version);
                d.number("host_count", hosts.len() as u64);
                assert(d.fields@ =~= seq![
                    ("catalog_version"@, number_text(*catalog_version as int)),
                    ("host_count"@, number_text(hosts@.len() as int)),
                ]);
                d.finish()
            },
            ClientEvent::Statuses { catalog_version, statuses } => {
                let mut d: Description = Description::new("Statuses");
                d.number("catalog_version", *catalog_version);
                d.number("status_count", statuses.len() as u64);
                assert(d.fields@ =~= seq![
                    ("catalog_version"@, number_text(*catalog_version as int)),
                    ("status_count"@, number_text(statuses@.len() as int)),
                ]);
                d.finish()
            },
            ClientEvent::CommandExecuted { operation_id, attempt, deadline_ms, results, .. } => {
                let mut d: Description = Description::new("CommandExecuted");
                d.text("operation_id", &hex_encode(operation_id));
                d.number("attempt", *attempt as u64);
                d.number("deadline_ms", *deadline_ms);
                d.number("result_count", results.len() as u64);
                d.conceal("retry_ticket");
                assert(d.fields@ =~= seq![
                    ("operation_id"@, debug_text(hex_text(operation_id@))),
                    ("attempt"@, number_text(*attempt as int)),
                    ("deadline_ms"@, number_text(*deadline_ms as int)),
                    ("result_count"@, number_text(results@.len() as int)),
                    ("retry_ticket"@, secret()),
                ]);
                d.finish()
            },
            ClientEvent::TargetOnline { operation_id, attempt, host_id } => {
                let mut d: Description = Description::new("TargetOnline");
                d.text("operation_id", &hex_encode(operation_id));
                d.number("attempt", *attempt as u64);
                d.text("host_id", host_id);
                assert(d.fields@ =~= seq![
                    ("operation_id"@, debug_text(hex_text(operation_id@))),
                    ("attempt"@, number_text(*attempt as int)),
                    ("host_id"@, debug_text(host_id@)),
                ]);
                d.finish()
            },
            ClientEvent::Error(text) => write_tuple("Error", &quote(text)),
            ClientEvent::Disconnected => "Disconnected".to_owned(),
        }
    }
}

impl CredentialBundle {
    pub open spec fn described(self) -> Seq<char> {
        struct_text(
            "CredentialBundle"@,
            seq![
                ("version"@, number_text(self.version as int)),
                ("client_id"@, debug_text(self.client_id@)),
                ("device_label"@, debug_text(self.device_label@)),
                ("shared_secret"@, secret()),
                ("static_private_key"@, secret()),
                ("static_public_key"@, debug_text(self.static_public_key@)),
                ("pinned_server_static_key"@, debug_text(self.pinned_server_static_key@)),
                ("custom_headers"@, list_text(shown_names(header_models(self.custom_headers@)))),
            ],
        )
    }

    /// The value in words.
    pub fn describe(&self) -> (r: String)
        ensures
            r@ == self.described(),
    {
        let mut d: Description = Description::new("CredentialBundle");
        d.number("version", self.version as u64);
        d.text("client_id", &self.client_id);
        d.text("device_label", &self.device_label);
        d.conceal("shared_secret");
        d.conceal("static_private_key");
        d.text("static_public_key", &self.static_public_key);
        d.text("pinned_server_static_key", &self.pinned_server_static_key);
        d.with("custom_headers", &write_list(&describe_names(&self.custom_headers)));
        assert(d.fields@ =~= seq![
            ("version"@, number_text(self.version as int)),
            ("client_id"@, debug_text(self.client_id@)),
            ("device_label"@, debug_text(self.device_label@)),
            ("shared_secret"@, secret()),
            ("static_private_key"@, secret()),
            ("static_public_key"@, debug_text(self.static_public_key@)),
            ("pinned_server_static_key"@, debug_text(self.pinned_server_static_key@)),
            ("custom_headers"@, list_text(shown_names(header_models(self.custom_headers@)))),
        ]);
        d.finish()
    }
}

impl Identity {
    pub open spec fn described(self) -> Seq<char> {
        struct_text(
            "Identity"@,
            seq![
                ("private"@, secret()),
                ("public"@, debug_text(fingerprint_of(self.public@))),
            ],
        )
    }

    /// The value in words.
    pub fn describe(&self) -> (r: String)
        ensures
            r@ == self.described(),
    {
        let mut d: Description = Description::new("Identity");
        d.conceal("private");
        d.text("public", &fingerprint(&self.public));
        assert(d.fields@ =~= seq![
            ("private"@, secret()),
            ("public"@, debug_text(fingerprint_of(self.public@))),
        ]);
        d.finish()
    }
}

fn write_pin(key: &Option<[u8; 32]>) -> (r: String)
    ensures
        r@ == pin_text(*key),
{
    match key {
        Some(key) => write_tuple("Some", &quote(&fingerprint(key))),
        None => "None".to_owned(),
    }
}

impl ClientHandshakeConfig {
    pub open spec fn described(self) -> Seq<char> {
        struct_text(
            "ClientHandshakeConfig"@,
            seq![
                ("psk"@, secret()),
                ("identity"@, self.identity.described()),
                ("client_id"@, debug_text(self.client_id@)),
                ("pinned_server_key"@, pin_text(self.pinned_server_key)),
                ("clock_skew"@, span_text(self.clock_skew)),
                ("header_count"@, number_text(self.headers@.len() as int)),
            ],
        )
    }

    /// The value in words.
    pub fn describe(&self) -> (r: String)
        ensures
            r@ == self.described(),
    {
        let mut d: Description = Description::new("ClientHandshakeConfig");
        d.conceal("psk");
        d.with("identity", &self.identity.describe());
        d.text("client_id", &self.client_id);
        d.with("pinned_server_key", &write_pin(&self.pinned_server_key));
        d.with("clock_skew", &write_span(self.clock_skew));
        d.number("header_count", self.headers.len() as u64);
        assert(d.fields@ =~= seq![
            ("psk"@, secret()),
            ("identity"@, self.identity.described()),
            ("client_id"@, debug_text(self.client_id@)),
            ("pinned_server_key"@, pin_text(self.pinned_server_key)),
            ("clock_skew"@, span_text(self.clock_skew)),
            ("header_count"@, number_text(self.headers@.len() as int)),
        ]);
        d.finish()
    }
}

impl ServerHandshakeConfig {
    pub open spec fn described(self) -> Seq<char> {
        struct_text(
            "ServerHandshakeConfig"@,
            seq![
                ("psk"@, secret()),
                ("identity"@, self.identity.described()),
                ("clock_skew"@, span_text(self.clock_skew)),
                ("header_count"@, number_text(self.headers@.len() as int)),
                ("allowed_client_count"@, number_text(self.allowed_clients@.len() as int)),
            ],
        )
    }

    /// The value in words.
    pub fn describe(&self) -> (r: String)
        ensures
            r@ == self.described(),
    {
        let mut d: Description = Description::new("ServerHandshakeConfig");
        d.conceal("psk");
        d.with("identity", &self.identity.describe());
        d.with("clock_skew", &write_span(self.clock_skew));
        d.number("header_count", self.headers.len() as u64);
        d.number("allowed_client_count", self.allowed_clients.len() as u64);
        assert(d.fields@ =~= seq![
            ("psk"@, secret()),
            ("identity"@, self.identity.described()),
            ("clock_skew"@, span_text(self.clock_skew)),
            ("header_count"@, number_text(self.headers@.len() as int)),
            ("allowed_client_count"@, number_text(self.allowed_clients@.len() as int)),
        ]);
        d.finish()
    }
}

impl SecureConnection {
    pub open spec fn described(self, peer_addr: Seq<char>) -> Seq<char> {
        struct_text(
            "SecureConnection"@,
            seq![
                ("session_id"@, debug_text(hex_text(self@.channel.session_id@))),
                ("send_seq"@, number_text(self@.channel.send_seq as int)),
                ("recv_seq"@, number_text(self@.channel.recv_seq as int)),
                ("peer_addr"@, peer_addr),
            ],
        )
    }

    /// The connection in words; the address of the other side is not its own.
    pub fn describe(&self, peer_addr: &str) -> (r: String)
        ensures
            r@ == self.described(peer_addr@),
    {
        let mut d: Description = Description::new("SecureConnection");
        d.text("session_id", &hex_encode(&self.channel.session_id));
        d.number("send_seq", self.channel.send_seq);
        d.number("recv_seq", self.channel.recv_seq);
        d.with("peer_addr", peer_addr);
        assert(d.fields@ =~= seq![
            ("session_id"@, debug_text(hex_text(self@.channel.session_id@))),
            ("send_seq"@, number_text(self@.channel.send_seq as int)),
            ("recv_seq"@, number_text(self@.channel.recv_seq as int)),
            ("peer_addr"@, peer_addr@),
        ]);
        d.finish()
    }
}

impl ClientConfig {
    pub open spec fn described(self) -> Seq<char> {
        struct_text(
            "ClientConfig"@,
            seq![
                ("address"@, debug_text(self.address@)),
                ("port"@, number_text(self.port as int)),
                ("client_id"@, debug_text(self.client_id@)),
                ("static_private_key"@, secret()),
                ("static_public_key"@, debug_text(self.static_public_key@)),
                ("pinned_server_static_key"@, debug_text(self.pinned_server_static_key@)),
            ],
        )
    }

    /// The value in words.
    pub fn describe(&self) -> (r: String)
        ensures
            r@ == self.described(),
    {
        let mut d: Description = Description::new("ClientConfig");
        d.text("address", &self.address);
        d.number("port", self.port as u64);
        d.text("client_id", &self.client_id);
        d.conceal("static_private_key");
        d.text("static_public_key", &self.static_public_key);
        d.text("pinned_server_static_key", &self.pinned_server_static_key);
        assert(d.fields@ =~= seq![
            ("address"@, debug_text(self.address@)),
            ("port"@, number_text(self.port as int)),
            ("client_id"@, debug_text(self.client_id@)),
            ("static_private_key"@, secret()),
            ("static_public_key"@, debug_text(self.static_public_key@)),
            ("pinned_server_static_key"@, debug_text(self.pinned_server_static_key@)),
        ]);
        d.finish()
    }
}

impl ServerConfig {
    pub open spec fn described(self) -> Seq<char> {
        struct_text(
            "ServerConfig"@,
            seq![
                ("bind_address"@, debug_text(self.bind_address@)),
                ("bind_address_v4"@, debug_text(self.bind_address_v4@)),
                ("port"@, number_text(self.port as int)),
                ("dual_stack"@, truth(self.dual_stack)),
            ],
        )
    }

    /// The value in words.
    pub fn describe(&self) -> (r: String)
        ensures
            r@ == self.described(),
    {
        let mut d: Description = Description::new("ServerConfig");
        d.text("bind_address", &self.bind_address);
        d.text("bind_address_v4", &self.bind_address_v4);
        d.number("port", self.port as u64);
        d.flag("dual_stack", self.dual_stack);
        assert(d.fields@ =~= seq![
            ("bind_address"@, debug_text(self.bind_address@)),
            ("bind_address_v4"@, debug_text(self.bind_address_v4@)),
            ("port"@, number_text(self.port as int)),
            ("dual_stack"@, truth(self.dual_stack)),
        ]);
        d.finish()
    }
}

impl SecurityConfig {
    pub open spec fn described(self) -> Seq<char> {
        struct_text(
            "SecurityConfig"@,
            seq![
                ("shared_secret"@, secret()),
                ("clock_skew_seconds"@, number_text(self.clock_skew_seconds as int)),
                ("max_requests_per_minute"@, number_text(self.max_requests_per_minute as int)),
                ("custom_headers"@, list_text(shown_names(header_models(self.custom_headers@)))),
                ("server_static_private_key"@, secret()),
                ("server_static_public_key"@, debug_text(self.server_static_public_key@)),
                ("allow_unregistered_clients"@, truth(self.allow_unregistered_clients)),
                ("allowed_clients"@, list_text(shown_clients(self.allowed_clients@))),
                ("allow_public_targets"@, truth(self.allow_public_targets)),
            ],
        )
    }

    /// The value in words.
    pub fn describe(&self) -> (r: String)
        ensures
            r@ == self.described(),
    {
        let mut d: Description = Description::new("SecurityConfig");
        d.conceal("shared_secret");
        d.number("clock_skew_seconds", self.clock_skew_seconds);
        d.number("max_requests_per_minute", self.max_requests_per_minute as u64);
        d.with("custom_headers", &write_list(&describe_names(&self.custom_headers)));
        d.conceal("server_static_private_key");
        d.text("server_static_public_key", &self.server_static_public_key);
        d.flag("allow_unregistered_clients", self.allow_unregistered_clients);
        d.with("allowed_clients", &write_list(&describe_clients(&self.allowed_clients)));
        d.flag("allow_public_targets", self.allow_public_targets);
        assert(d.fields@ =~= seq![
            ("shared_secret"@, secret()),
            ("clock_skew_seconds"@, number_text(self.clock_skew_seconds as int)),
            ("max_requests_per_minute"@, number_text(self.max_requests_per_minute as int)),
            ("custom_headers"@, list_text(shown_names(header_models(self.custom_headers@)))),
            ("server_static_private_key"@, secret()),
            ("server_static_public_key"@, debug_text(self.server_static_public_key@)),
            ("allow_unregistered_clients"@, truth(self.allow_unregistered_clients)),
            ("allowed_clients"@, list_text(shown_clients(self.allowed_clients@))),
            ("allow_public_targets"@, truth(self.allow_public_targets)),
        ]);
        d.finish()
    }
}

impl AppConfig {
    pub open spec fn described(self) -> Seq<char> {
        struct_text(
            "AppConfig"@,
            seq![
                ("config_version"@, number_text(self.config_version as int)),
                ("server"@, self.server.described()),
                ("security"@, self.security.described()),
                ("hosts"@, list_text(shown_hosts(self.hosts@))),
                ("client"@, self.client.described()),
            ],
        )
    }

    /// The value in words.
    pub fn describe(&self) -> (r: String)
        ensures
            r@ == self.described(),
    {
        let mut d: Description = Description::new("AppConfig");
        d.number("config_version", self.config_version as u64);
        d.with("server", &self.server.describe());
        d.with("security", &self.security.describe());
        d.with("hosts", &write_list(&describe_hosts(&self.hosts)));
        d.with("client", &self.client.describe());
        assert(d.fields@ =~= seq![
            ("config_version"@, number_text(self.config_version as int)),
            ("server"@, self.server.described()),
            ("security"@, self.security.described()),
            ("hosts"@, list_text(shown_hosts(self.hosts@))),
            ("client"@, self.client.described()),
        ]);
        d.finish()
    }
}

/// A description of a credential shows neither its secret nor its private key,
/// nor what its headers say.
pub proof fn a_credential_keeps_its_secrets(a: CredentialBundle, b: CredentialBundle)
    requires
        a.version == b.version,
        a.client_id@ == b.client_id@,
        a.device_label@ == b.device_label@,
        a.static_public_key@ == b.static_public_key@,
        a.pinned_server_static_key@ == b.pinned_server_static_key@,
        a.custom_headers@.len() == b.custom_headers@.len(),
        forall|i: int|
            0 <= i < a.custom_headers@.len() ==> (#[trigger] a.custom_headers@[i]).name@
                == b.custom_headers@[i].name@,
    ensures
        a.described() == b.described(),
{
    assert(shown_names(header_models(a.custom_headers@)) =~= shown_names(
        header_models(b.custom_headers@),
    )) by {
        assert forall|i: int| 0 <= i < a.custom_headers@.len() implies header_models(
            a.custom_headers@,
        )[i].name == header_models(b.custom_headers@)[i].name by {
            assert(a.custom_headers@[i].name@ == b.custom_headers@[i].name@);
        }
    }
}

/// A description of settings shows no secret and no private key.
pub proof fn settings_keep_their_secrets(
    a: AppConfig,
    shared_secret: String,
    server_key: String,
    client_key: String,
)
    ensures
        (AppConfig {
            security: SecurityConfig {
                shared_secret,
                server_static_private_key: server_key,
                ..a.security
            },
            client: ClientConfig { static_private_key: client_key, ..a.client },
            ..a
        }).described() == a.described(),
{
}

/// A description of a wake shows neither its nonce nor its ticket.
pub proof fn a_wake_keeps_its_ticket(
    catalog_version: u64,
    host_ids: Vec<String>,
    attempt: u8,
    nonce: [u8; 16],
    other_nonce: [u8; 16],
    ticket: Option<[u8; 32]>,
    other_ticket: Option<[u8; 32]>,
)
    ensures
        (ClientOperation::Wake {
            catalog_version,
            host_ids,
            attempt,
            boot_nonce: nonce,
            retry_ticket: ticket,
        }).described() == (ClientOperation::Wake {
            catalog_version,
            host_ids,
            attempt,
            boot_nonce: other_nonce,
            retry_ticket: other_ticket,
        }).described(),
{
}

/// A description of a receipt does not show its ticket.
pub proof fn a_receipt_keeps_its_ticket(
    receipt: ServerEvent,
    other: ServerEvent,
)
    requires
        receipt is CommandExecuted,
        other is CommandExecuted,
        receipt->CommandExecuted_operation_id == other->CommandExecuted_operation_id,
        receipt->CommandExecuted_attempt == other->CommandExecuted_attempt,
        receipt->deadline_ms == other->deadline_ms,
        receipt->results == other->results,
    ensures
        receipt.described() == other.described(),
{
}

} // verus!
