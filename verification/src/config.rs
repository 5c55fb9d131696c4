//! The settings of a server and of a client, and what makes them valid.
//!
//! The settings hold data only. How they are written to disk is left to the
//! program around the library.

use crate::crypto::{
    hex_bytes, hex_decode, hex_encode, hex_text, public_key, random_32, shared_secret,
    x25519_public, x25519_shared,
};
use crate::net::{
    hex_digit, hex_value, ip_literal, is_lan_ip, is_v4_literal, parse_ip, split, split_chars,
    v4_octets, IpAddress, IpModel,
};
use crate::octets::{all_zero, is_zero, same_key};
use crate::protocol::{
    header_bytes, header_models, header_name, header_value, is_header_name, is_header_value, is_id,
    is_reserved_name, validate_id, Header, HeaderModel, MAX_ID_BYTES,
};
use crate::text::{
    alnum, byte_count, byte_len, chars_of, control, copy_texts, decimal, decimal_text, is_alnum, is_control,
    joined, listed, lower_text, lowered, same_text, starts_with, text_from, texts, trim, trimmed,
};
use vstd::prelude::*;

verus! {

pub const CONFIG_VERSION: u32 = 1;

pub const DEFAULT_PORT: u16 = 45890;

pub const DEFAULT_CLOCK_SKEW_SECONDS: u64 = 30;

pub const DEFAULT_RATE_LIMIT_PER_MINUTE: u32 = 30;

pub const MAX_CONFIG_BYTES: usize = 1048576;

pub const MAX_HOSTS: usize = 64;

pub const MAX_CLIENTS: usize = 128;

pub const MAX_HEADERS: usize = 32;

pub const MAX_HEADER_BYTES: usize = 4096;

pub const MIN_SECRET_BYTES: usize = 32;

pub const MAX_CLIENT_ID_LEN: usize = 64;

pub const MAX_ALLOWED_HOSTS: usize = 256;

/// Why settings are refused, in words for the operator.
#[derive(Debug, PartialEq, Eq)]
pub enum ConfigError {
    Invalid(String),
}

impl View for ConfigError {
    type V = Seq<char>;

    open spec fn view(&self) -> Seq<char> {
        self->Invalid_0@
    }
}

#[derive(Debug, PartialEq, Eq)]
pub struct ServerConfig {
    pub bind_address: String,
    /// The IPv4 address of the second listener in dual-stack mode.
    pub bind_address_v4: String,
    pub port: u16,
    /// One explicit IPv4 socket and one explicit IPv6 socket.
    pub dual_stack: bool,
}

#[derive(PartialEq, Eq)]
pub struct SecurityConfig {
    /// A key of 256 bits, written as `hex:` and 64 hexadecimal digits.
    pub shared_secret: String,
    pub clock_skew_seconds: u64,
    pub max_requests_per_minute: u32,
    /// Headers that every request carries, in the order of their names.
    pub custom_headers: Vec<Header>,
    pub server_static_private_key: String,
    pub server_static_public_key: String,
    pub allow_unregistered_clients: bool,
    pub allowed_clients: Vec<AllowedClient>,
    /// Hosts outside the local network are refused unless this is set.
    pub allow_public_targets: bool,
}

#[derive(Debug, PartialEq, Eq)]
pub struct AllowedClient {
    pub client_id: String,
    pub static_public_key: String,
    pub allowed_hosts: Vec<String>,
}

#[derive(PartialEq, Eq)]
pub struct ClientConfig {
    pub address: String,
    pub port: u16,
    pub client_id: String,
    pub static_private_key: String,
    pub static_public_key: String,
    /// The server key that the client insists on.
    pub pinned_server_static_key: String,
}

#[derive(Debug, PartialEq, Eq)]
pub struct HostConfig {
    pub hostname: String,
    /// A label for the operator; it decides nothing.
    pub display_name: String,
    pub mac: String,
    pub ip: String,
    pub wol_port: u16,
    pub probe_timeout_ms: u64,
    /// Zero stands for a small fixed set of ports.
    pub probe_port: u16,
    /// The interface for link-local IPv6; zero leaves the choice to the system.
    pub wol_ipv6_interface: u32,
}

#[derive(PartialEq, Eq)]
pub struct AppConfig {
    pub config_version: u32,
    pub server: ServerConfig,
    pub security: SecurityConfig,
    pub hosts: Vec<HostConfig>,
    pub client: ClientConfig,
}

/// What the settings say of a host.
pub struct HostModel {
    pub hostname: Seq<char>,
    pub display_name: Seq<char>,
    pub mac: Seq<char>,
    pub ip: Seq<char>,
    pub wol_port: u16,
    pub probe_timeout_ms: u64,
    pub probe_port: u16,
    pub wol_ipv6_interface: u32,
}

impl View for HostConfig {
    type V = HostModel;

    open spec fn view(&self) -> HostModel {
        HostModel {
            hostname: self.hostname@,
            display_name: self.display_name@,
            mac: self.mac@,
            ip: self.ip@,
            wol_port: self.wol_port,
            probe_timeout_ms: self.probe_timeout_ms,
            probe_port: self.probe_port,
            wol_ipv6_interface: self.wol_ipv6_interface,
        }
    }
}

impl HostConfig {
    /// Whether the settings say the same of both.
    pub fn same(&self, other: &HostConfig) -> (r: bool)
        ensures
            r == (self@ == other@),
    {
        self.hostname == other.hostname && self.display_name == other.display_name && self.mac
            == other.mac && self.ip == other.ip && self.wol_port == other.wol_port
            && self.probe_timeout_ms == other.probe_timeout_ms && self.probe_port
            == other.probe_port && self.wol_ipv6_interface == other.wol_ipv6_interface
    }
}

impl Clone for HostConfig {
    fn clone(&self) -> (r: HostConfig)
        ensures
            r == *self,
    {
        HostConfig {
            hostname: self.hostname.clone(),
            display_name: self.display_name.clone(),
            mac: self.mac.clone(),
            ip: self.ip.clone(),
            wol_port: self.wol_port,
            probe_timeout_ms: self.probe_timeout_ms,
            probe_port: self.probe_port,
            wol_ipv6_interface: self.wol_ipv6_interface,
        }
    }
}

impl Default for ServerConfig {
    fn default() -> (r: ServerConfig)
        ensures
            r.bind_address@ == "::"@,
            r.bind_address_v4@ == "0.0.0.0"@,
            r.port == DEFAULT_PORT,
            r.dual_stack,
    {
        ServerConfig {
            bind_address: "::".to_owned(),
            bind_address_v4: "0.0.0.0".to_owned(),
            port: DEFAULT_PORT,
            dual_stack: true,
        }
    }
}

impl Default for SecurityConfig {
    fn default() -> (r: SecurityConfig)
        ensures
            r.shared_secret@.len() == 0,
            r.clock_skew_seconds == DEFAULT_CLOCK_SKEW_SECONDS,
            r.max_requests_per_minute == DEFAULT_RATE_LIMIT_PER_MINUTE,
            r.custom_headers@.len() == 0,
            r.server_static_private_key@.len() == 0,
            r.server_static_public_key@.len() == 0,
            !r.allow_unregistered_clients,
            r.allowed_clients@.len() == 0,
            !r.allow_public_targets,
    {
        SecurityConfig {
            shared_secret: String::new(),
            clock_skew_seconds: DEFAULT_CLOCK_SKEW_SECONDS,
            max_requests_per_minute: DEFAULT_RATE_LIMIT_PER_MINUTE,
            custom_headers: Vec::new(),
            server_static_private_key: String::new(),
            server_static_public_key: String::new(),
            allow_unregistered_clients: false,
            allowed_clients: Vec::new(),
            allow_public_targets: false,
        }
    }
}

impl Default for ClientConfig {
    fn default() -> (r: ClientConfig)
        ensures
            r.address@.len() == 0,
            r.port == DEFAULT_PORT,
            r.client_id@.len() == 0,
            r.static_private_key@.len() == 0,
            r.static_public_key@.len() == 0,
            r.pinned_server_static_key@.len() == 0,
    {
        ClientConfig {
            address: String::new(),
            port: DEFAULT_PORT,
            client_id: String::new(),
            static_private_key: String::new(),
            static_public_key: String::new(),
            pinned_server_static_key: String::new(),
        }
    }
}

/// What the settings say of an enrolled client.
pub struct AllowedModel {
    pub client_id: Seq<char>,
    pub static_public_key: Seq<char>,
    pub allowed_hosts: Seq<Seq<char>>,
}

impl View for AllowedClient {
    type V = AllowedModel;

    open spec fn view(&self) -> AllowedModel {
        AllowedModel {
            client_id: self.client_id@,
            static_public_key: self.static_public_key@,
            allowed_hosts: texts(self.allowed_hosts@),
        }
    }
}

pub open spec fn allowed_models(clients: Seq<AllowedClient>) -> Seq<AllowedModel> {
    clients.map_values(|client: AllowedClient| client@)
}

pub open spec fn host_models(hosts: Seq<HostConfig>) -> Seq<HostModel> {
    hosts.map_values(|host: HostConfig| host@)
}

/// What the settings say of the listeners.
pub struct ListenerModel {
    pub bind_address: Seq<char>,
    pub bind_address_v4: Seq<char>,
    pub port: u16,
    pub dual_stack: bool,
}

impl View for ServerConfig {
    type V = ListenerModel;

    open spec fn view(&self) -> ListenerModel {
        ListenerModel {
            bind_address: self.bind_address@,
            bind_address_v4: self.bind_address_v4@,
            port: self.port,
            dual_stack: self.dual_stack,
        }
    }
}

/// What the settings say of keys, limits and clients.
pub struct SecurityModel {
    pub shared_secret: Seq<char>,
    pub clock_skew_seconds: u64,
    pub max_requests_per_minute: u32,
    pub custom_headers: Seq<HeaderModel>,
    pub server_static_private_key: Seq<char>,
    pub server_static_public_key: Seq<char>,
    pub allow_unregistered_clients: bool,
    pub allowed_clients: Seq<AllowedModel>,
    pub allow_public_targets: bool,
}

impl View for SecurityConfig {
    type V = SecurityModel;

    open spec fn view(&self) -> SecurityModel {
        SecurityModel {
            shared_secret: self.shared_secret@,
            clock_skew_seconds: self.clock_skew_seconds,
            max_requests_per_minute: self.max_requests_per_minute,
            custom_headers: header_models(self.custom_headers@),
            server_static_private_key: self.server_static_private_key@,
            server_static_public_key: self.server_static_public_key@,
            allow_unregistered_clients: self.allow_unregistered_clients,
            allowed_clients: allowed_models(self.allowed_clients@),
            allow_public_targets: self.allow_public_targets,
        }
    }
}

/// What the settings say of a client's own connection.
pub struct EndpointModel {
    pub address: Seq<char>,
    pub port: u16,
    pub client_id: Seq<char>,
    pub static_private_key: Seq<char>,
    pub static_public_key: Seq<char>,
    pub pinned_server_static_key: Seq<char>,
}

impl View for ClientConfig {
    type V = EndpointModel;

    open spec fn view(&self) -> EndpointModel {
        EndpointModel {
            address: self.address@,
            port: self.port,
            client_id: self.client_id@,
            static_private_key: self.static_private_key@,
            static_public_key: self.static_public_key@,
            pinned_server_static_key: self.pinned_server_static_key@,
        }
    }
}

/// What the settings say.
pub struct SettingsModel {
    pub config_version: u32,
    pub server: ListenerModel,
    pub security: SecurityModel,
    pub hosts: Seq<HostModel>,
    pub client: EndpointModel,
}

impl View for AppConfig {
    type V = SettingsModel;

    open spec fn view(&self) -> SettingsModel {
        SettingsModel {
            config_version: self.config_version,
            server: self.server@,
            security: self.security@,
            hosts: host_models(self.hosts@),
            client: self.client@,
        }
    }
}

impl Clone for AllowedClient {
    fn clone(&self) -> (r: AllowedClient)
        ensures
            r@ == self@,
    {
        AllowedClient {
            client_id: self.client_id.clone(),
            static_public_key: self.static_public_key.clone(),
            allowed_hosts: copy_texts(&self.allowed_hosts),
        }
    }
}

#[verifier::loop_isolation(false)]
pub fn copy_clients(clients: &Vec<AllowedClient>) -> (r: Vec<AllowedClient>)
    ensures
        allowed_models(r@) == allowed_models(clients@),
{
    let mut out: Vec<AllowedClient> = Vec::new();
    let mut i: usize = 0;
    while i < clients.len()
        invariant
            i == out@.len() <= clients@.len(),
            forall|k: int| 0 <= k < i ==> (#[trigger] out@[k])@ == clients@[k]@,
        decreases clients@.len() - i,
    {
        out.push(clients[i].clone());
        i += 1;
    }
    assert(allowed_models(out@) =~= allowed_models(clients@));
    out
}

#[verifier::loop_isolation(false)]
fn copy_hosts(hosts: &Vec<HostConfig>) -> (r: Vec<HostConfig>)
    ensures
        host_models(r@) == host_models(hosts@),
{
    let mut out: Vec<HostConfig> = Vec::new();
    let mut i: usize = 0;
    while i < hosts.len()
        invariant
            i == out@.len() <= hosts@.len(),
            forall|k: int| 0 <= k < i ==> (#[trigger] out@[k])@ == hosts@[k]@,
        decreases hosts@.len() - i,
    {
        out.push(hosts[i].clone());
        i += 1;
    }
    assert(host_models(out@) =~= host_models(hosts@));
    out
}

impl Clone for AppConfig {
    fn clone(&self) -> (r: AppConfig)
        ensures
            r@ == self@,
    {
        let headers: Vec<Header> = self.security.custom_headers.clone();
        assert(headers@ =~= self.security.custom_headers@);
        AppConfig {
            config_version: self.config_version,
            server: ServerConfig {
                bind_address: self.server.bind_address.clone(),
                bind_address_v4: self.server.bind_address_v4.clone(),
                port: self.server.port,
                dual_stack: self.server.dual_stack,
            },
            security: SecurityConfig {
                shared_secret: self.security.shared_secret.clone(),
                clock_skew_seconds: self.security.clock_skew_seconds,
                max_requests_per_minute: self.security.max_requests_per_minute,
                custom_headers: headers,
                server_static_private_key: self.security.server_static_private_key.clone(),
                server_static_public_key: self.security.server_static_public_key.clone(),
                allow_unregistered_clients: self.security.allow_unregistered_clients,
                allowed_clients: copy_clients(&self.security.allowed_clients),
                allow_public_targets: self.security.allow_public_targets,
            },
            hosts: copy_hosts(&self.hosts),
            client: ClientConfig {
                address: self.client.address.clone(),
                port: self.client.port,
                client_id: self.client.client_id.clone(),
                static_private_key: self.client.static_private_key.clone(),
                static_public_key: self.client.static_public_key.clone(),
                pinned_server_static_key: self.client.pinned_server_static_key.clone(),
            },
        }
    }
}

/// The first complaint, if there is one, else the second.
pub open spec fn either(first: Option<Seq<char>>, second: Option<Seq<char>>) -> Option<Seq<char>> {
    if first is Some {
        first
    } else {
        second
    }
}

/// A complaint made in the program is the one stated.
pub open spec fn says(given: Option<String>, stated: Option<Seq<char>>) -> bool {
    match given {
        Some(text) => stated == Some(text@),
        None => stated is None,
    }
}

/// A check succeeds exactly if there is no complaint, and else makes it.
pub open spec fn reports(result: Result<(), ConfigError>, stated: Option<Seq<char>>) -> bool {
    match result {
        Ok(()) => stated is None,
        Err(error) => stated == Some(error@),
    }
}

pub(crate) fn report(complaint: Option<String>) -> (r: Result<(), ConfigError>)
    ensures
        match complaint {
            Some(text) => r is Err && r->Err_0@ == text@,
            None => r is Ok,
        },
{
    match complaint {
        Some(text) => Err(ConfigError::Invalid(text)),
        None => Ok(()),
    }
}

/// What a key text says: `hex:` and the digits of 32 bytes, not all zero.
pub open spec fn key_read(text: Seq<char>) -> Result<Seq<u8>, Seq<char>> {
    if !"hex:"@.is_prefix_of(text) {
        Err("key must use hex:<64 hex digits>"@)
    } else {
        match hex_bytes(text.skip(4)) {
            None => Err("key hex is invalid"@),
            Some(bytes) => {
                if bytes.len() != 32 {
                    Err("key must contain exactly 32 bytes"@)
                } else if is_zero(bytes) {
                    Err("key cannot be all zero"@)
                } else {
                    Ok(bytes)
                }
            },
        }
    }
}

/// The text of a key.
pub open spec fn key_text(bytes: Seq<u8>) -> Seq<char> {
    "hex:"@ + hex_text(bytes)
}

pub fn write_key(bytes: &[u8; 32]) -> (r: String)
    ensures
        r@ == key_text(bytes@),
{
    joined("hex:", &hex_encode(bytes))
}

/// Reading the text of a key gives the key back.
pub proof fn key_text_reads_back(bytes: Seq<u8>)
    requires
        bytes.len() == 32,
        !is_zero(bytes),
    ensures
        key_read(key_text(bytes)) == Ok::<Seq<u8>, Seq<char>>(bytes),
{
    reveal_strlit("hex:");
    crate::crypto::hex_text_reads_back(bytes);
    assert(key_text(bytes).skip(4) =~= hex_text(bytes));
    assert("hex:"@ =~= key_text(bytes).subrange(0, 4));
}

pub(crate) fn array_32(bytes: &Vec<u8>) -> (r: [u8; 32])
    requires
        bytes@.len() == 32,
    ensures
        r@ == bytes@,
{
    let mut key: [u8; 32] = [0; 32];
    let mut i: usize = 0;
    while i < 32
        invariant
            i <= 32,
            bytes@.len() == 32,
            forall|k: int| 0 <= k < i ==> key@[k] == bytes@[k],
        decreases 32 - i,
    {
        key[i] = bytes[i];
        i += 1;
    }
    assert(key@ =~= bytes@);
    key
}

/// Reads a key.
pub fn decode_key(value: &str) -> (r: Result<[u8; 32], ConfigError>)
    ensures
        match r {
            Ok(key) => key_read(value@) == Ok::<Seq<u8>, Seq<char>>(key@),
            Err(error) => key_read(value@) == Err::<Seq<u8>, Seq<char>>(error@),
        },
{
    proof {
        reveal_strlit("hex:");
    }
    if !starts_with(value, "hex:") {
        return Err(ConfigError::Invalid("key must use hex:<64 hex digits>".to_owned()));
    }
    let bytes: Vec<u8> = match hex_decode(&text_from(value, 4)) {
        Some(bytes) => bytes,
        None => {
            return Err(ConfigError::Invalid("key hex is invalid".to_owned()));
        },
    };
    if bytes.len() != 32 {
        return Err(ConfigError::Invalid("key must contain exactly 32 bytes".to_owned()));
    }
    if all_zero(&bytes) {
        return Err(ConfigError::Invalid("key cannot be all zero".to_owned()));
    }
    Ok(array_32(&bytes))
}

/// The complaint about a key text.
pub open spec fn key_fault(text: Seq<char>) -> Option<Seq<char>> {
    match key_read(text) {
        Ok(_) => None,
        Err(complaint) => Some(complaint),
    }
}

/// The secret with which a public key is tried.
pub open spec fn probe_secret() -> Seq<u8> {
    Seq::new(32, |i: int| 7u8)
}

/// A public key with which every exchange gives zero.
pub open spec fn low_order(public: Seq<u8>) -> bool {
    is_zero(x25519_shared(probe_secret(), public))
}

pub fn is_low_order(public: &[u8; 32]) -> (r: bool)
    ensures
        r == low_order(public@),
{
    let secret: [u8; 32] = [7; 32];
    assert(secret@ =~= probe_secret());
    all_zero(&shared_secret(&secret, public))
}

/// The complaint about a public key text.
pub open spec fn public_key_fault(text: Seq<char>, label: Seq<char>) -> Option<Seq<char>> {
    match key_read(text) {
        Err(complaint) => Some(complaint),
        Ok(bytes) => {
            if low_order(bytes) {
                Some(label + " is a low-order point"@)
            } else {
                None
            }
        },
    }
}

pub(crate) fn check_public_key(value: &str, label: &str) -> (r: Option<String>)
    ensures
        says(r, public_key_fault(value@, label@)),
{
    match decode_key(value) {
        Err(ConfigError::Invalid(text)) => Some(text),
        Ok(bytes) => {
            if is_low_order(&bytes) {
                Some(joined(label, " is a low-order point"))
            } else {
                None
            }
        },
    }
}

/// The texts of a key pair that belong together.
pub open spec fn pair_texts(private: Seq<u8>) -> (Seq<char>, Seq<char>) {
    (key_text(private), key_text(x25519_public(private)))
}

/// The texts of the key pair of a secret.
pub fn identity_pair(private: &[u8; 32]) -> (r: (String, String))
    ensures
        (r.0@, r.1@) == pair_texts(private@),
{
    (write_key(private), write_key(&public_key(private)))
}

/// A fresh key pair: the public text belongs to the private one, which is
/// random.
pub fn generate_identity_pair() -> (r: (String, String))
    ensures
        exists|private: [u8; 32]| (r.0@, r.1@) == pair_texts(#[trigger] private@),
{
    let private: [u8; 32] = random_32();
    identity_pair(&private)
}

/// The public key text for a private key text.
pub open spec fn derived_public(private: Seq<char>) -> Result<Seq<char>, Seq<char>> {
    match key_read(private) {
        Ok(bytes) => Ok(key_text(x25519_public(bytes))),
        Err(complaint) => Err(complaint),
    }
}

fn derive_public_key(private: &str) -> (r: Result<String, ConfigError>)
    ensures
        match r {
            Ok(text) => derived_public(private@) == Ok::<Seq<char>, Seq<char>>(text@),
            Err(error) => derived_public(private@) == Err::<Seq<char>, Seq<char>>(error@),
        },
{
    match decode_key(private) {
        Ok(bytes) => Ok(write_key(&public_key(&bytes))),
        Err(error) => Err(error),
    }
}

/// The complaint about a pair of key texts: both or neither are there, and the
/// public one belongs to the private one.
pub open spec fn pair_fault(
    private: Seq<char>,
    public: Seq<char>,
    name: Seq<char>,
) -> Option<Seq<char>> {
    if private.len() == 0 && public.len() == 0 {
        None
    } else if private.len() == 0 || public.len() == 0 {
        Some(name + " static key pair must contain both private and public keys"@)
    } else {
        match derived_public(private) {
            Err(complaint) => Some(complaint),
            Ok(expected) => {
                if expected != public {
                    Some(name + " static public key does not match its private key"@)
                } else {
                    public_key_fault(public, name + " static public key"@)
                }
            },
        }
    }
}

/// A public key that was accepted with its private key is neither zero nor of
/// low order.
pub proof fn a_paired_key_is_strong(private: Seq<char>, public: Seq<char>, name: Seq<char>)
    requires
        pair_fault(private, public, name) is None,
        key_read(private) is Ok,
        key_read(public) is Ok,
    ensures
        !is_zero(key_read(public)->Ok_0),
        !low_order(key_read(public)->Ok_0),
{
    reveal_strlit("hex:");
}

pub(crate) fn check_pair(private: &str, public: &str, name: &str) -> (r: Option<String>)
    ensures
        says(r, pair_fault(private@, public@, name@)),
{
    if private.is_empty() && public.is_empty() {
        return None;
    }
    if private.is_empty() || public.is_empty() {
        return Some(
            joined(name, " static key pair must contain both private and public keys"),
        );
    }
    let expected: String = match derive_public_key(private) {
        Ok(text) => text,
        Err(ConfigError::Invalid(text)) => {
            return Some(text);
        },
    };
    if !same_text(&expected, public) {
        return Some(joined(name, " static public key does not match its private key"));
    }
    check_public_key(public, &joined(name, " static public key"))
}

/// The characters that may stand between the digits of a hardware address.
pub open spec fn is_mac_separator(c: char) -> bool {
    c == ':' || c == '-' || c == '.' || c == ' '
}

/// The text without separators.
pub open spec fn compact(text: Seq<char>) -> Seq<char>
    decreases text.len(),
{
    if text.len() == 0 {
        text
    } else if is_mac_separator(text.last()) {
        compact(text.drop_last())
    } else {
        compact(text.drop_last()).push(text.last())
    }
}

/// The hardware address that a text stands for: six bytes, neither all zero nor
/// all ones, and not a group address.
pub open spec fn mac_read(text: Seq<char>) -> Option<Seq<u8>> {
    match hex_bytes(compact(text)) {
        Some(mac) if mac.len() == 6 && mac != seq![0u8, 0, 0, 0, 0, 0] && mac != seq![
            0xffu8,
            0xff,
            0xff,
            0xff,
            0xff,
            0xff,
        ] && mac[0] % 2 == 0 => Some(mac),
        _ => None,
    }
}

#[verifier::loop_isolation(false)]
fn without_separators(input: &str) -> (r: Vec<char>)
    ensures
        r@ == compact(input@),
{
    let chars: Vec<char> = chars_of(input);
    let mut digits: Vec<char> = Vec::new();
    let mut i: usize = 0;
    assert(chars@.take(0) =~= Seq::<char>::empty());
    while i < chars.len()
        invariant
            i <= chars@.len(),
            digits@ == compact(chars@.take(i as int)),
        decreases chars@.len() - i,
    {
        let c: char = chars[i];
        assert(chars@.take(i + 1).drop_last() =~= chars@.take(i as int));
        if !(c == ':' || c == '-' || c == '.' || c == ' ') {
            digits.push(c);
        }
        i += 1;
    }
    assert(chars@.take(i as int) =~= input@);
    digits
}

fn read_byte(digits: &Vec<char>, at: usize) -> (r: Option<u8>)
    requires
        at <= 10,
        at + 1 < digits@.len(),
    ensures
        match r {
            Some(byte) => {
                &&& hex_digit(digits@[at as int]) is Some
                &&& hex_digit(digits@[at + 1]) is Some
                &&& byte == 16 * hex_digit(digits@[at as int])->0 + hex_digit(digits@[at + 1])->0
            },
            None => hex_digit(digits@[at as int]) is None || hex_digit(digits@[at + 1]) is None,
        },
{
    match (hex_value(digits[at]), hex_value(digits[at + 1])) {
        (Some(high), Some(low)) => Some(high * 16 + low),
        _ => None,
    }
}

/// The six bytes of twelve digits.
fn read_six(digits: &Vec<char>) -> (r: Option<[u8; 6]>)
    requires
        digits@.len() == 12,
    ensures
        match r {
            Some(mac) => hex_bytes(digits@) == Some(mac@),
            None => hex_bytes(digits@) is None,
        },
{
    match (
        read_byte(digits, 0),
        read_byte(digits, 2),
        read_byte(digits, 4),
        read_byte(digits, 6),
        read_byte(digits, 8),
        read_byte(digits, 10),
    ) {
        (Some(a), Some(b), Some(c), Some(d), Some(e), Some(f)) => {
            let mac: [u8; 6] = [a, b, c, d, e, f];
            assert(hex_bytes(digits@) is Some);
            assert(hex_bytes(digits@)->0 =~= mac@);
            Some(mac)
        },
        _ => None,
    }
}

/// Reads a hardware address in any of its common forms.
pub fn parse_mac(input: &str) -> (r: Result<[u8; 6], String>)
    ensures
        match r {
            Ok(mac) => mac_read(input@) == Some(mac@),
            Err(text) => mac_read(input@) is None && text@ == "invalid MAC address: "@ + input@,
        },
{
    let digits: Vec<char> = without_separators(input);
    if digits.len() != 12 {
        return Err(joined("invalid MAC address: ", input));
    }
    let mac: [u8; 6] = match read_six(&digits) {
        Some(mac) => mac,
        None => {
            return Err(joined("invalid MAC address: ", input));
        },
    };
    let zero: bool = mac[0] == 0 && mac[1] == 0 && mac[2] == 0 && mac[3] == 0 && mac[4] == 0
        && mac[5] == 0;
    let ones: bool = mac[0] == 0xff && mac[1] == 0xff && mac[2] == 0xff && mac[3] == 0xff && mac[4]
        == 0xff && mac[5] == 0xff;
    assert(zero == (mac@ =~= seq![0u8, 0, 0, 0, 0, 0]));
    assert(ones == (mac@ =~= seq![0xffu8, 0xff, 0xff, 0xff, 0xff, 0xff]));
    if zero || ones || mac[0] % 2 != 0 {
        return Err(joined("invalid MAC address: ", input));
    }
    Ok(mac)
}

/// One label of a host name.
pub open spec fn is_label(label: Seq<char>) -> bool {
    &&& 0 < label.len() <= 63
    &&& is_alnum(label[0])
    &&& is_alnum(label.last())
    &&& forall|i: int| 0 <= i < label.len() ==> #[trigger] is_label_char(label[i])
}

pub open spec fn is_label_char(c: char) -> bool {
    is_alnum(c) || c == '-'
}

/// A host name: labels between dots, 64 characters at most.
pub open spec fn is_host_name(name: Seq<char>) -> bool {
    &&& 0 < name.len() <= MAX_ID_BYTES
    &&& forall|i: int| 0 <= i < split(name, '.').len() ==> is_label(#[trigger] split(name, '.')[i])
}

#[verifier::loop_isolation(false)]
pub fn host_label(label: &Vec<char>) -> (r: bool)
    ensures
        r == is_label(label@),
{
    let n: usize = label.len();
    if n == 0 || n > 63 || !alnum(label[0]) || !alnum(label[n - 1]) {
        return false;
    }
    let mut i: usize = 0;
    while i < n
        invariant
            i <= n,
            forall|k: int| 0 <= k < i ==> #[trigger] is_label_char(label@[k]),
        decreases n - i,
    {
        if !(alnum(label[i]) || label[i] == '-') {
            assert(!is_label_char(label@[i as int]));
            return false;
        }
        i += 1;
    }
    true
}

#[verifier::loop_isolation(false)]
fn is_valid_hostname(hostname: &str) -> (r: bool)
    ensures
        r == is_host_name(hostname@),
{
    let chars: Vec<char> = chars_of(hostname);
    if chars.len() == 0 || chars.len() > MAX_ID_BYTES {
        return false;
    }
    assert(chars@.subrange(0, chars@.len() as int) =~= hostname@);
    let labels: Vec<Vec<char>> = split_chars(&chars, 0, chars.len(), '.');
    let ghost all = split(hostname@, '.');
    assert(all.len() == labels@.len());
    let mut i: usize = 0;
    while i < labels.len()
        invariant
            i <= labels@.len(),
            forall|k: int| 0 <= k < i ==> is_label(#[trigger] all[k]),
        decreases labels@.len() - i,
    {
        assert(all[i as int] == labels@[i as int]@);
        if !host_label(&labels[i]) {
            return false;
        }
        i += 1;
    }
    true
}

pub open spec fn has_control(text: Seq<char>) -> bool {
    exists|i: int| 0 <= i < text.len() && #[trigger] is_control(text[i])
}

#[verifier::loop_isolation(false)]
pub fn any_control(text: &str) -> (r: bool)
    ensures
        r == has_control(text@),
{
    let chars: Vec<char> = chars_of(text);
    let mut i: usize = 0;
    while i < chars.len()
        invariant
            i <= chars@.len(),
            forall|k: int| 0 <= k < i ==> !#[trigger] is_control(text@[k]),
        decreases chars@.len() - i,
    {
        if control(chars[i]) {
            assert(is_control(text@[i as int]));
            return true;
        }
        i += 1;
    }
    false
}

/// A label for people: 128 bytes at most, without control characters.
pub open spec fn is_display_label(text: Seq<char>) -> bool {
    byte_count(text) <= 128 && !has_control(text)
}

pub fn display_label(text: &str) -> (r: bool)
    ensures
        r == is_display_label(text@),
{
    byte_len(text) <= 128 && !any_control(text)
}

/// An address that a wake may be sent to.
pub open spec fn is_target(ip: IpModel, interface: u32, allow_public: bool) -> bool {
    let ip = ip.unmapped();
    &&& !ip.is_unspecified()
    &&& !ip.is_multicast()
    &&& !ip.is_loopback()
    &&& !ip.is_v4_special()
    &&& ip.is_v6_link_local() ==> interface != 0
    &&& allow_public || ip.is_lan() || ip.is_v6_link_local()
}

pub fn target_address(ip: &IpAddress, interface: u32, allow_public: bool) -> (r: bool)
    ensures
        r == is_target(ip@, interface, allow_public),
{
    let ip: IpAddress = ip.unmapped();
    let link_local: bool = ip.is_v6_link_local();
    !ip.is_unspecified() && !ip.is_multicast() && !ip.is_loopback() && !ip.is_v4_special() && (
    !link_local || interface != 0) && (allow_public || is_lan_ip(&ip) || link_local)
}

/// The identifier of a host: its name without white space around it, in small
/// letters.
pub open spec fn host_id_of(hostname: Seq<char>) -> Seq<char> {
    lowered(trimmed(hostname))
}

impl HostConfig {
    /// The complaint about a host.
    pub open spec fn fault(self, allow_public_targets: bool) -> Option<Seq<char>> {
        let name = self.hostname@;
        let ip = ip_literal(trimmed(self.ip@));
        if !is_host_name(trimmed(name)) {
            Some("host name must be an ASCII DNS label (1-64 chars)"@)
        } else if !is_id(host_id_of(name)) {
            Some("host name must also be a valid protocol host id (1-64 bytes)"@)
        } else if !is_display_label(self.display_name@) {
            Some("display name must be at most 128 bytes and contain no control characters"@)
        } else if mac_read(self.mac@) is None {
            Some("invalid MAC address: "@ + self.mac@)
        } else if ip is None {
            Some(name + " has an invalid IP address"@)
        } else if !is_target(ip->0, self.wol_ipv6_interface, allow_public_targets) {
            Some(
                name
                    + " must use a non-loopback LAN IP; link-local IPv6 also requires an interface index"@,
            )
        } else if self.wol_port != 7 && self.wol_port != 9 {
            Some(name + " WoL port must be 7 or 9"@)
        } else if !(100 <= self.probe_timeout_ms <= 5000) {
            Some(name + " probe timeout must be between 100 and 5000 ms"@)
        } else if self.probe_port != 0 && self.probe_port < 1024 {
            Some(name + " has an invalid probe port"@)
        } else {
            None
        }
    }

    /// The identifier under which the host is known to clients.
    pub fn host_id(&self) -> (r: String)
        ensures
            r@ == host_id_of(self.hostname@),
    {
        lower_text(&trim(&self.hostname))
    }

    fn check(&self, allow_public_targets: bool) -> (r: Option<String>)
        ensures
            says(r, self.fault(allow_public_targets)),
    {
        if !is_valid_hostname(&trim(&self.hostname)) {
            return Some("host name must be an ASCII DNS label (1-64 chars)".to_owned());
        }
        if validate_id(&self.host_id()).is_err() {
            return Some("host name must also be a valid protocol host id (1-64 bytes)".to_owned());
        }
        if !display_label(&self.display_name) {
            return Some(
                "display name must be at most 128 bytes and contain no control characters".to_owned(),
            );
        }
        if let Err(text) = parse_mac(&self.mac) {
            return Some(text);
        }
        let ip: IpAddress = match parse_ip(&trim(&self.ip)) {
            Some(ip) => ip,
            None => {
                return Some(joined(&self.hostname, " has an invalid IP address"));
            },
        };
        if !target_address(&ip, self.wol_ipv6_interface, allow_public_targets) {
            return Some(
                joined(
                    &self.hostname,
                    " must use a non-loopback LAN IP; link-local IPv6 also requires an interface index",
                ),
            );
        }
        if self.wol_port != 7 && self.wol_port != 9 {
            return Some(joined(&self.hostname, " WoL port must be 7 or 9"));
        }
        if self.probe_timeout_ms < 100 || self.probe_timeout_ms > 5000 {
            return Some(
                joined(&self.hostname, " probe timeout must be between 100 and 5000 ms"),
            );
        }
        if self.probe_port != 0 && self.probe_port < 1024 {
            return Some(joined(&self.hostname, " has an invalid probe port"));
        }
        None
    }

    /// Checks a host.
    pub fn validate(&self, allow_public_targets: bool) -> (r: Result<(), ConfigError>)
        ensures
            reports(r, self.fault(allow_public_targets)),
    {
        report(self.check(allow_public_targets))
    }
}

/// The complaint about a custom header.
pub open spec fn header_fault(key: Seq<char>, value: Seq<char>) -> Option<Seq<char>> {
    if !is_header_name(key) || !is_header_value(value) {
        Some("invalid custom header `"@ + key + "`"@)
    } else if is_reserved_name(key) {
        Some("rop-/x-rop-* headers are reserved by the protocol"@)
    } else {
        None
    }
}

fn check_header(key: &str, value: &str) -> (r: Option<String>)
    ensures
        says(r, header_fault(key@, value@)),
{
    if !header_name(key) || !header_value(value) {
        return Some(joined(&joined("invalid custom header `", key), "`"));
    }
    if starts_with(key, "rop-") || starts_with(key, "x-rop-") {
        return Some("rop-/x-rop-* headers are reserved by the protocol".to_owned());
    }
    None
}

/// Checks a custom header.
pub fn validate_header(key: &str, value: &str) -> (r: Result<(), ConfigError>)
    ensures
        reports(r, header_fault(key@, value@)),
{
    report(check_header(key, value))
}

/// The complaint about the first header from `k` on that there is one about.
pub open spec fn each_header_fault(headers: Seq<HeaderModel>, k: int) -> Option<Seq<char>>
    decreases headers.len() - k,
{
    if k < 0 || k >= headers.len() {
        None
    } else {
        either(
            header_fault(headers[k].name, headers[k].value),
            each_header_fault(headers, k + 1),
        )
    }
}

/// The complaint about the custom headers.
pub open spec fn headers_fault(headers: Seq<HeaderModel>) -> Option<Seq<char>> {
    if each_header_fault(headers, 0) is Some {
        each_header_fault(headers, 0)
    } else if headers.len() > MAX_HEADERS {
        Some("at most 32 custom headers are allowed"@)
    } else if header_bytes(headers) > MAX_HEADER_BYTES {
        Some("custom headers exceed 4096 bytes"@)
    } else {
        None
    }
}

#[verifier::loop_isolation(false)]
pub(crate) fn check_headers(headers: &Vec<Header>) -> (r: Option<String>)
    ensures
        says(r, headers_fault(header_models(headers@))),
{
    let ghost all = header_models(headers@);
    let mut k: usize = 0;
    while k < headers.len()
        invariant
            k <= headers@.len(),
            each_header_fault(all, 0) == each_header_fault(all, k as int),
            forall|j: int|
                0 <= j < k ==> (#[trigger] all[j]).name.len() <= 32 && all[j].value.len() <= 256,
        decreases headers@.len() - k,
    {
        if let Some(text) = check_header(&headers[k].name, &headers[k].value) {
            return Some(text);
        }
        k += 1;
    }
    if headers.len() > MAX_HEADERS {
        return Some("at most 32 custom headers are allowed".to_owned());
    }
    let mut total: usize = 0;
    let mut i: usize = 0;
    assert(all.take(0) =~= Seq::<HeaderModel>::empty());
    while i < headers.len()
        invariant
            i <= headers@.len(),
            total == header_bytes(all.take(i as int)),
            total <= i * 288,
        decreases headers@.len() - i,
    {
        assert(all.take(i + 1).drop_last() =~= all.take(i as int));
        assert(all.take(i + 1).last() == all[i as int]);
        total = total + headers[i].name.as_str().unicode_len() + headers[i].value.as_str().unicode_len();
        i += 1;
    }
    assert(all.take(i as int) =~= all);
    if total > MAX_HEADER_BYTES {
        return Some("custom headers exceed 4096 bytes".to_owned());
    }
    None
}

/// The complaint about a client identifier: canonical but for its case.
pub open spec fn client_id_fault(id: Seq<char>) -> Option<Seq<char>> {
    if trimmed(id) != id || !is_id(lowered(id)) {
        Some("client_id must be a canonical 1-64 byte identifier"@)
    } else {
        None
    }
}

fn check_client_id(client_id: &str) -> (r: Option<String>)
    ensures
        says(r, client_id_fault(client_id@)),
{
    if !same_text(&trim(client_id), client_id) || validate_id(&lower_text(client_id)).is_err() {
        return Some("client_id must be a canonical 1-64 byte identifier".to_owned());
    }
    None
}

/// Checks a client identifier.
pub fn validate_client_id(client_id: &str) -> (r: Result<(), ConfigError>)
    ensures
        reports(r, client_id_fault(client_id@)),
{
    report(check_client_id(client_id))
}

/// A character that no server address holds.
pub open spec fn is_address_stop(c: char) -> bool {
    c <= '\u{1f}' || c == '\u{7f}' || c == ' '
}

/// The complaint about a server address.
pub open spec fn endpoint_fault(address: Seq<char>) -> Option<Seq<char>> {
    if byte_count(address) > 255 || address.len() == 0 || (exists|i: int|
        0 <= i < address.len() && #[trigger] is_address_stop(address[i])) {
        Some("client address contains invalid characters"@)
    } else {
        None
    }
}

#[verifier::loop_isolation(false)]
pub(crate) fn check_endpoint(address: &str) -> (r: Option<String>)
    ensures
        says(r, endpoint_fault(address@)),
{
    let chars: Vec<char> = chars_of(address);
    if byte_len(address) > 255 || chars.len() == 0 {
        return Some("client address contains invalid characters".to_owned());
    }
    let mut i: usize = 0;
    while i < chars.len()
        invariant
            i <= chars@.len(),
            forall|k: int| 0 <= k < i ==> !#[trigger] is_address_stop(address@[k]),
        decreases chars@.len() - i,
    {
        let c: char = chars[i];
        if c <= '\u{1f}' || c == '\u{7f}' || c == ' ' {
            assert(is_address_stop(address@[i as int]));
            return Some("client address contains invalid characters".to_owned());
        }
        i += 1;
    }
    None
}

/// The complaint about the first allowed host from `k` on that is unknown or
/// stood before.
pub open spec fn allowed_hosts_fault(
    client_id: Seq<char>,
    allowed: Seq<Seq<char>>,
    host_ids: Seq<Seq<char>>,
    k: int,
) -> Option<Seq<char>>
    decreases allowed.len() - k,
{
    if k < 0 || k >= allowed.len() {
        None
    } else if normal_ids(allowed.take(k)).contains(host_id_of(allowed[k])) || !host_ids.contains(
        host_id_of(allowed[k]),
    ) {
        Some("client "@ + client_id + " references an unknown or duplicate host"@)
    } else {
        allowed_hosts_fault(client_id, allowed, host_ids, k + 1)
    }
}

/// The identifiers of named hosts.
pub open spec fn normal_ids(names: Seq<Seq<char>>) -> Seq<Seq<char>> {
    names.map_values(|name: Seq<char>| host_id_of(name))
}

impl AllowedClient {
    /// The complaint about an enrolled client.
    pub open spec fn fault(self, host_ids: Seq<Seq<char>>) -> Option<Seq<char>> {
        if client_id_fault(self.client_id@) is Some {
            client_id_fault(self.client_id@)
        } else if public_key_fault(
            self.static_public_key@,
            "client static public key"@,
        ) is Some {
            public_key_fault(self.static_public_key@, "client static public key"@)
        } else if self.allowed_hosts@.len() > MAX_ALLOWED_HOSTS {
            Some("client "@ + self.client_id@ + " has too many allowed hosts"@)
        } else {
            allowed_hosts_fault(self.client_id@, texts(self.allowed_hosts@), host_ids, 0)
        }
    }

    #[verifier::loop_isolation(false)]
    fn check(&self, host_ids: &Vec<String>) -> (r: Option<String>)
        ensures
            says(r, self.fault(texts(host_ids@))),
    {
        if let Some(text) = check_client_id(&self.client_id) {
            return Some(text);
        }
        if let Some(text) = check_public_key(&self.static_public_key, "client static public key") {
            return Some(text);
        }
        if self.allowed_hosts.len() > MAX_ALLOWED_HOSTS {
            return Some(joined(&joined("client ", &self.client_id), " has too many allowed hosts"));
        }
        let ghost allowed = texts(self.allowed_hosts@);
        let ghost known = texts(host_ids@);
        let mut seen: Vec<String> = Vec::new();
        let mut k: usize = 0;
        while k < self.allowed_hosts.len()
            invariant
                k <= self.allowed_hosts@.len(),
                texts(seen@) == normal_ids(allowed.take(k as int)),
                allowed_hosts_fault(self.client_id@, allowed, known, 0) == allowed_hosts_fault(
                    self.client_id@,
                    allowed,
                    known,
                    k as int,
                ),
            decreases self.allowed_hosts@.len() - k,
        {
            let id: String = lower_text(&trim(&self.allowed_hosts[k]));
            if listed(&seen, &id) || !listed(host_ids, &id) {
                return Some(
                    joined(
                        &joined("client ", &self.client_id),
                        " references an unknown or duplicate host",
                    ),
                );
            }
            let ghost before = texts(seen@);
            seen.push(id);
            assert(texts(seen@) =~= before.push(id@));
            assert(normal_ids(allowed.take(k + 1)) =~= normal_ids(allowed.take(k as int)).push(
                host_id_of(allowed[k as int]),
            ));
            k += 1;
        }
        None
    }
}

/// What the shared secret says: `hex:` and the digits of 32 bytes, not all zero.
pub open spec fn secret_read(text: Seq<char>) -> Result<Seq<u8>, Seq<char>> {
    let raw = trimmed(text);
    if !"hex:"@.is_prefix_of(raw) {
        Err("shared secret must use hex:<64 hex digits>"@)
    } else {
        match hex_bytes(raw.skip(4)) {
            None => Err("shared secret hex is invalid"@),
            Some(bytes) => {
                if bytes.len() != MIN_SECRET_BYTES {
                    Err("shared secret must contain exactly 32 bytes"@)
                } else if is_zero(bytes) {
                    Err("shared secret cannot be all zero"@)
                } else {
                    Ok(bytes)
                }
            },
        }
    }
}

pub open spec fn secret_fault(text: Seq<char>) -> Option<Seq<char>> {
    match secret_read(text) {
        Ok(_) => None,
        Err(complaint) => Some(complaint),
    }
}

/// Reads the shared secret.
pub fn decode_secret(text: &str) -> (r: Result<[u8; 32], ConfigError>)
    ensures
        match r {
            Ok(key) => secret_read(text@) == Ok::<Seq<u8>, Seq<char>>(key@),
            Err(error) => secret_read(text@) == Err::<Seq<u8>, Seq<char>>(error@),
        },
{
    proof {
        reveal_strlit("hex:");
    }
    let raw: String = trim(text);
    if !starts_with(&raw, "hex:") {
        return Err(ConfigError::Invalid("shared secret must use hex:<64 hex digits>".to_owned()));
    }
    let bytes: Vec<u8> = match hex_decode(&text_from(&raw, 4)) {
        Some(bytes) => bytes,
        None => {
            return Err(ConfigError::Invalid("shared secret hex is invalid".to_owned()));
        },
    };
    if bytes.len() != MIN_SECRET_BYTES {
        return Err(ConfigError::Invalid("shared secret must contain exactly 32 bytes".to_owned()));
    }
    if all_zero(&bytes) {
        return Err(ConfigError::Invalid("shared secret cannot be all zero".to_owned()));
    }
    Ok(array_32(&bytes))
}

impl ServerConfig {
    /// The complaint about the addresses and the port of the server.
    pub open spec fn fault(self) -> Option<Seq<char>> {
        let bind = ip_literal(trimmed(self.bind_address@));
        if trimmed(self.bind_address@).len() == 0 || self.port == 0 {
            Some("server bind address and port are required"@)
        } else if self.port < 1024 {
            Some("server port must be 1024 or higher"@)
        } else if bind is None {
            Some("bind_address must be an IP literal"@)
        } else if self.dual_stack && !(bind->0 is V6) {
            Some("dual_stack requires an IPv6 bind address"@)
        } else if self.dual_stack && v4_octets(trimmed(self.bind_address_v4@)) is None {
            Some("dual-stack IPv4 bind address must be an IPv4 literal"@)
        } else {
            None
        }
    }

    fn check(&self) -> (r: Option<String>)
        ensures
            says(r, self.fault()),
    {
        let bind: String = trim(&self.bind_address);
        if bind.as_str().is_empty() || self.port == 0 {
            return Some("server bind address and port are required".to_owned());
        }
        if self.port < 1024 {
            return Some("server port must be 1024 or higher".to_owned());
        }
        let is_v6: bool = match parse_ip(&bind) {
            Some(IpAddress::V6(_)) => true,
            Some(IpAddress::V4(_)) => false,
            None => {
                return Some("bind_address must be an IP literal".to_owned());
            },
        };
        if self.dual_stack && !is_v6 {
            return Some("dual_stack requires an IPv6 bind address".to_owned());
        }
        if self.dual_stack && !is_v4_literal(&trim(&self.bind_address_v4)) {
            return Some("dual-stack IPv4 bind address must be an IPv4 literal".to_owned());
        }
        None
    }
}

impl SecurityConfig {
    /// The complaint about the secret and the limits.
    pub open spec fn limits_fault(self) -> Option<Seq<char>> {
        if trimmed(self.shared_secret@).len() == 0 {
            Some("security.shared_secret must not be empty"@)
        } else if secret_fault(self.shared_secret@) is Some {
            secret_fault(self.shared_secret@)
        } else if self.clock_skew_seconds == 0 || self.clock_skew_seconds > 60 {
            Some("clock_skew_seconds must be between 1 and 60"@)
        } else if self.max_requests_per_minute == 0 || self.max_requests_per_minute > 600 {
            Some("max_requests_per_minute must be between 1 and 600"@)
        } else {
            headers_fault(header_models(self.custom_headers@))
        }
    }

    fn check_limits(&self) -> (r: Option<String>)
        ensures
            says(r, self.limits_fault()),
    {
        if trim(&self.shared_secret).as_str().is_empty() {
            return Some("security.shared_secret must not be empty".to_owned());
        }
        if let Err(ConfigError::Invalid(text)) = decode_secret(&self.shared_secret) {
            return Some(text);
        }
        if self.clock_skew_seconds == 0 || self.clock_skew_seconds > 60 {
            return Some("clock_skew_seconds must be between 1 and 60".to_owned());
        }
        if self.max_requests_per_minute == 0 || self.max_requests_per_minute > 600 {
            return Some("max_requests_per_minute must be between 1 and 600".to_owned());
        }
        check_headers(&self.custom_headers)
    }
}

/// The identifiers of the hosts, in order.
pub open spec fn host_ids_of(hosts: Seq<HostConfig>) -> Seq<Seq<char>> {
    hosts.map_values(|host: HostConfig| host_id_of(host.hostname@))
}

/// The complaint about the first host from `k` on that is faulty or bears the
/// name of one before it.
pub open spec fn hosts_fault(hosts: Seq<HostConfig>, allow_public: bool, k: int) -> Option<Seq<char>>
    decreases hosts.len() - k,
{
    if k < 0 || k >= hosts.len() {
        None
    } else if hosts[k].fault(allow_public) is Some {
        hosts[k].fault(allow_public)
    } else if host_ids_of(hosts.take(k)).contains(host_id_of(hosts[k].hostname@)) {
        Some("duplicate host name: "@ + hosts[k].hostname@)
    } else {
        hosts_fault(hosts, allow_public, k + 1)
    }
}

#[verifier::loop_isolation(false)]
pub fn collect_host_ids(hosts: &Vec<HostConfig>) -> (r: Vec<String>)
    ensures
        texts(r@) == host_ids_of(hosts@),
{
    let mut ids: Vec<String> = Vec::new();
    let mut i: usize = 0;
    while i < hosts.len()
        invariant
            i <= hosts@.len(),
            texts(ids@) == host_ids_of(hosts@.take(i as int)),
        decreases hosts@.len() - i,
    {
        let ghost before = texts(ids@);
        let id: String = hosts[i].host_id();
        ids.push(id);
        assert(texts(ids@) =~= before.push(id@));
        assert(host_ids_of(hosts@.take(i + 1)) =~= host_ids_of(hosts@.take(i as int)).push(
            host_id_of(hosts@[i as int].hostname@),
        ));
        i += 1;
    }
    assert(hosts@.take(i as int) =~= hosts@);
    ids
}

#[verifier::loop_isolation(false)]
fn check_hosts(hosts: &Vec<HostConfig>, allow_public: bool) -> (r: Option<String>)
    ensures
        says(r, hosts_fault(hosts@, allow_public, 0)),
{
    let mut ids: Vec<String> = Vec::new();
    let mut k: usize = 0;
    while k < hosts.len()
        invariant
            k <= hosts@.len(),
            texts(ids@) == host_ids_of(hosts@.take(k as int)),
            hosts_fault(hosts@, allow_public, 0) == hosts_fault(hosts@, allow_public, k as int),
        decreases hosts@.len() - k,
    {
        if let Some(text) = hosts[k].check(allow_public) {
            return Some(text);
        }
        let id: String = hosts[k].host_id();
        if listed(&ids, &id) {
            return Some(joined("duplicate host name: ", &hosts[k].hostname));
        }
        let ghost before = texts(ids@);
        ids.push(id);
        assert(texts(ids@) =~= before.push(id@));
        assert(host_ids_of(hosts@.take(k + 1)) =~= host_ids_of(hosts@.take(k as int)).push(
            host_id_of(hosts@[k as int].hostname@),
        ));
        k += 1;
    }
    None
}

/// The identifiers of the enrolled clients, in order.
pub open spec fn client_ids_of(clients: Seq<AllowedClient>) -> Seq<Seq<char>> {
    clients.map_values(|client: AllowedClient| lowered(client.client_id@))
}

/// The keys of the enrolled clients, in order.
pub open spec fn client_keys_of(clients: Seq<AllowedClient>) -> Seq<Seq<u8>> {
    clients.map_values(|client: AllowedClient| key_read(client.static_public_key@)->Ok_0)
}

/// The complaint about the first client from `k` on that is faulty or shares its
/// identifier or its key with one before it.
pub open spec fn clients_fault(
    clients: Seq<AllowedClient>,
    host_ids: Seq<Seq<char>>,
    k: int,
) -> Option<Seq<char>>
    decreases clients.len() - k,
{
    if k < 0 || k >= clients.len() {
        None
    } else if clients[k].fault(host_ids) is Some {
        clients[k].fault(host_ids)
    } else if client_ids_of(clients.take(k)).contains(lowered(clients[k].client_id@)) {
        Some("duplicate client id: "@ + clients[k].client_id@)
    } else if client_keys_of(clients.take(k)).contains(
        key_read(clients[k].static_public_key@)->Ok_0,
    ) {
        Some("multiple clients may not share a static public key"@)
    } else {
        clients_fault(clients, host_ids, k + 1)
    }
}

/// The bytes of the keys, in order.
pub open spec fn key_models(keys: Seq<[u8; 32]>) -> Seq<Seq<u8>> {
    keys.map_values(|key: [u8; 32]| key@)
}

#[verifier::loop_isolation(false)]
pub fn key_listed(keys: &Vec<[u8; 32]>, key: &[u8; 32]) -> (r: bool)
    ensures
        r == key_models(keys@).contains(key@),
        r == keys@.contains(*key),
{
    let mut i: usize = 0;
    while i < keys.len()
        invariant
            i <= keys@.len(),
            forall|k: int| 0 <= k < i ==> key_models(keys@)[k] != key@,
            forall|k: int| 0 <= k < i ==> keys@[k] != *key,
        decreases keys@.len() - i,
    {
        proof {
            crate::octets::key_ext(keys@[i as int], *key);
        }
        if same_key(&keys[i], key) {
            assert(key_models(keys@)[i as int] == key@);
            assert(keys@[i as int] == *key);
            return true;
        }
        i += 1;
    }
    false
}

#[verifier::loop_isolation(false)]
fn check_clients(clients: &Vec<AllowedClient>, host_ids: &Vec<String>) -> (r: Option<String>)
    ensures
        says(r, clients_fault(clients@, texts(host_ids@), 0)),
{
    let ghost known = texts(host_ids@);
    let mut ids: Vec<String> = Vec::new();
    let mut keys: Vec<[u8; 32]> = Vec::new();
    let mut k: usize = 0;
    assert(key_models(keys@) =~= client_keys_of(clients@.take(0)));
    while k < clients.len()
        invariant
            k <= clients@.len(),
            texts(ids@) == client_ids_of(clients@.take(k as int)),
            key_models(keys@) == client_keys_of(clients@.take(k as int)),
            clients_fault(clients@, known, 0) == clients_fault(clients@, known, k as int),
        decreases clients@.len() - k,
    {
        let client: &AllowedClient = &clients[k];
        if let Some(text) = client.check(host_ids) {
            return Some(text);
        }
        let id: String = lower_text(&client.client_id);
        if listed(&ids, &id) {
            return Some(joined("duplicate client id: ", &client.client_id));
        }
        let key: [u8; 32] = match decode_key(&client.static_public_key) {
            Ok(key) => key,
            Err(ConfigError::Invalid(text)) => {
                return Some(text);
            },
        };
        if key_listed(&keys, &key) {
            return Some("multiple clients may not share a static public key".to_owned());
        }
        let ghost ids_before = texts(ids@);
        let ghost keys_before = key_models(keys@);
        ids.push(id);
        keys.push(key);
        assert(texts(ids@) =~= ids_before.push(id@));
        assert(key_models(keys@) =~= keys_before.push(key@));
        assert(client_ids_of(clients@.take(k + 1)) =~= client_ids_of(clients@.take(k as int)).push(
            lowered(clients@[k as int].client_id@),
        ));
        assert(client_keys_of(clients@.take(k + 1)) =~= client_keys_of(
            clients@.take(k as int),
        ).push(key@));
        k += 1;
    }
    None
}

/// The complaint about a key that may be left out.
pub open spec fn optional_key_fault(text: Seq<char>) -> Option<Seq<char>> {
    if text.len() == 0 {
        None
    } else {
        key_fault(text)
    }
}

fn check_optional_key(text: &str) -> (r: Option<String>)
    ensures
        says(r, optional_key_fault(text@)),
{
    if text.is_empty() {
        return None;
    }
    match decode_key(text) {
        Ok(_) => None,
        Err(ConfigError::Invalid(complaint)) => Some(complaint),
    }
}

impl ClientConfig {
    /// The complaint about the client's name, port and server address.
    pub open spec fn fault(self) -> Option<Seq<char>> {
        if self.client_id@.len() != 0 && client_id_fault(self.client_id@) is Some {
            client_id_fault(self.client_id@)
        } else if self.port < 1024 {
            Some("client port must be 1024 or higher"@)
        } else if self.address@.len() != 0 {
            endpoint_fault(self.address@)
        } else {
            None
        }
    }

    fn check(&self) -> (r: Option<String>)
        ensures
            says(r, self.fault()),
    {
        if !self.client_id.as_str().is_empty() {
            if let Some(text) = check_client_id(&self.client_id) {
                return Some(text);
            }
        }
        if self.port < 1024 {
            return Some("client port must be 1024 or higher".to_owned());
        }
        if !self.address.as_str().is_empty() {
            return check_endpoint(&self.address);
        }
        None
    }
}

impl AppConfig {
    /// The complaint about the numbers of hosts and clients, and about them.
    pub open spec fn directory_fault(self) -> Option<Seq<char>> {
        if self.hosts@.len() > MAX_HOSTS {
            Some("at most 64 hosts are allowed"@)
        } else if self.security.allowed_clients@.len() > MAX_CLIENTS {
            Some("at most 128 clients are allowed"@)
        } else {
            either(
                hosts_fault(self.hosts@, self.security.allow_public_targets, 0),
                clients_fault(self.security.allowed_clients@, host_ids_of(self.hosts@), 0),
            )
        }
    }

    /// The complaint about the keys of either side.
    pub open spec fn keys_fault(self) -> Option<Seq<char>> {
        let readable = either(
            optional_key_fault(self.security.server_static_private_key@),
            either(
                optional_key_fault(self.security.server_static_public_key@),
                either(
                    optional_key_fault(self.client.static_private_key@),
                    either(
                        optional_key_fault(self.client.static_public_key@),
                        optional_key_fault(self.client.pinned_server_static_key@),
                    ),
                ),
            ),
        );
        let pairs = either(
            pair_fault(
                self.security.server_static_private_key@,
                self.security.server_static_public_key@,
                "server"@,
            ),
            pair_fault(
                self.client.static_private_key@,
                self.client.static_public_key@,
                "client"@,
            ),
        );
        let pin = if self.client.pinned_server_static_key@.len() != 0
            && self.security.server_static_public_key@.len() != 0
            && self.client.pinned_server_static_key@ != self.security.server_static_public_key@ {
            Some("pinned server key does not match the configured server key"@)
        } else {
            None
        };
        either(readable, either(pairs, pin))
    }

    /// The first complaint about the settings.
    pub open spec fn fault(self) -> Option<Seq<char>> {
        if self.config_version != CONFIG_VERSION {
            Some("unsupported config version "@ + decimal(self.config_version as nat))
        } else {
            either(
                self.server.fault(),
                either(
                    self.security.limits_fault(),
                    either(self.directory_fault(), either(self.client.fault(), self.keys_fault())),
                ),
            )
        }
    }

    fn check_directory(&self) -> (r: Option<String>)
        ensures
            says(r, self.directory_fault()),
    {
        if self.hosts.len() > MAX_HOSTS {
            return Some("at most 64 hosts are allowed".to_owned());
        }
        if self.security.allowed_clients.len() > MAX_CLIENTS {
            return Some("at most 128 clients are allowed".to_owned());
        }
        if let Some(text) = check_hosts(&self.hosts, self.security.allow_public_targets) {
            return Some(text);
        }
        let host_ids: Vec<String> = collect_host_ids(&self.hosts);
        check_clients(&self.security.allowed_clients, &host_ids)
    }

    fn check_keys(&self) -> (r: Option<String>)
        ensures
            says(r, self.keys_fault()),
    {
        if let Some(text) = check_optional_key(&self.security.server_static_private_key) {
            return Some(text);
        }
        if let Some(text) = check_optional_key(&self.security.server_static_public_key) {
            return Some(text);
        }
        if let Some(text) = check_optional_key(&self.client.static_private_key) {
            return Some(text);
        }
        if let Some(text) = check_optional_key(&self.client.static_public_key) {
            return Some(text);
        }
        if let Some(text) = check_optional_key(&self.client.pinned_server_static_key) {
            return Some(text);
        }
        if let Some(text) = check_pair(
            &self.security.server_static_private_key,
            &self.security.server_static_public_key,
            "server",
        ) {
            return Some(text);
        }
        if let Some(text) = check_pair(
            &self.client.static_private_key,
            &self.client.static_public_key,
            "client",
        ) {
            return Some(text);
        }
        if !self.client.pinned_server_static_key.as_str().is_empty()
            && !self.security.server_static_public_key.as_str().is_empty()
            && self.client.pinned_server_static_key != self.security.server_static_public_key {
            return Some("pinned server key does not match the configured server key".to_owned());
        }
        None
    }

    fn check(&self) -> (r: Option<String>)
        ensures
            says(r, self.fault()),
    {
        if self.config_version != CONFIG_VERSION {
            return Some(
                joined("unsupported config version ", &decimal_text(self.config_version as u64)),
            );
        }
        if let Some(text) = self.server.check() {
            return Some(text);
        }
        if let Some(text) = self.security.check_limits() {
            return Some(text);
        }
        if let Some(text) = self.check_directory() {
            return Some(text);
        }
        if let Some(text) = self.client.check() {
            return Some(text);
        }
        self.check_keys()
    }

    /// Checks the settings.
    pub fn validate(&self) -> (r: Result<(), ConfigError>)
        ensures
            reports(r, self.fault()),
    {
        report(self.check())
    }

    /// The shared secret.
    pub fn secret_key(&self) -> (r: Result<[u8; 32], ConfigError>)
        ensures
            match r {
                Ok(key) => secret_read(self.security.shared_secret@) == Ok::<Seq<u8>, Seq<char>>(
                    key@,
                ),
                Err(error) => secret_read(self.security.shared_secret@) == Err::<
                    Seq<u8>,
                    Seq<char>,
                >(error@),
            },
    {
        decode_secret(&self.security.shared_secret)
    }
}

/// Everything but the shared secret is the same.
pub open spec fn same_but_secret(a: AppConfig, b: AppConfig) -> bool {
    &&& a.config_version == b.config_version
    &&& a.server == b.server
    &&& a.hosts == b.hosts
    &&& a.client == b.client
    &&& a.security == (SecurityConfig { shared_secret: a.security.shared_secret, ..b.security })
}

/// Everything but the server's key pair is the same.
pub open spec fn same_but_server_keys(a: AppConfig, b: AppConfig) -> bool {
    &&& a.config_version == b.config_version
    &&& a.server == b.server
    &&& a.hosts == b.hosts
    &&& a.client == b.client
    &&& a.security == (SecurityConfig {
        server_static_private_key: a.security.server_static_private_key,
        server_static_public_key: a.security.server_static_public_key,
        ..b.security
    })
}

/// The settings of a fresh installation, but for its random secret.
pub open spec fn is_fresh(config: AppConfig) -> bool {
    &&& config.config_version == CONFIG_VERSION
    &&& config.server.bind_address@ == "::"@
    &&& config.server.bind_address_v4@ == "0.0.0.0"@
    &&& config.server.port == DEFAULT_PORT
    &&& config.server.dual_stack
    &&& config.security.clock_skew_seconds == DEFAULT_CLOCK_SKEW_SECONDS
    &&& config.security.max_requests_per_minute == DEFAULT_RATE_LIMIT_PER_MINUTE
    &&& config.security.custom_headers@.len() == 0
    &&& config.security.server_static_private_key@.len() == 0
    &&& config.security.server_static_public_key@.len() == 0
    &&& !config.security.allow_unregistered_clients
    &&& config.security.allowed_clients@.len() == 0
    &&& !config.security.allow_public_targets
    &&& config.hosts@.len() == 0
    &&& config.client.address@.len() == 0
    &&& config.client.port == DEFAULT_PORT
    &&& config.client.client_id@.len() == 0
    &&& config.client.static_private_key@.len() == 0
    &&& config.client.static_public_key@.len() == 0
    &&& config.client.pinned_server_static_key@.len() == 0
}

/// The text stands for some 32 bytes.
pub open spec fn is_some_key(text: Seq<char>) -> bool {
    exists|bytes: [u8; 32]| text == key_text(#[trigger] bytes@)
}

proof fn key_text_is_trimmed(bytes: Seq<u8>)
    requires
        bytes.len() == 32,
    ensures
        trimmed(key_text(bytes)) == key_text(bytes),
{
    reveal_strlit("hex:");
    let text = key_text(bytes);
    assert(text[0] == 'h');
    assert(text.last() == hex_text(bytes)[63]);
    assert(hex_text(bytes)[63] == crate::crypto::hex_char((bytes[31] % 16) as nat));
}

/// The settings of a fresh installation are valid, whatever its secret, as long
/// as that is not zero.
#[verifier::spinoff_prover]
#[verifier::rlimit(40)]
pub proof fn fresh_settings_are_valid(config: AppConfig, secret: [u8; 32])
    requires
        is_fresh(config),
        config.security.shared_secret@ == key_text(secret@),
    ensures
        config.fault() == if is_zero(secret@) {
            Some("shared secret cannot be all zero"@)
        } else {
            None
        },
        secret_read(config.security.shared_secret@) == if is_zero(secret@) {
            Err::<Seq<u8>, Seq<char>>("shared secret cannot be all zero"@)
        } else {
            Ok(secret@)
        },
{
    key_text_is_trimmed(secret@);
    crate::crypto::hex_text_reads_back(secret@);
    reveal_strlit("hex:");
    let text = key_text(secret@);
    assert(text.skip(4) =~= hex_text(secret@));
    assert("hex:"@ =~= text.subrange(0, 4));
    reveal_strlit("::");
    reveal_strlit("0.0.0.0");
    reveal_with_fuel(split, 9);
    reveal_with_fuel(crate::net::number, 3);
    let any = "::"@;
    assert(trimmed(any) == any);
    assert(split(any, '.').len() == 1);
    assert(crate::net::double_colon(any, 0) == Some(0int));
    assert(ip_literal(any) is Some && ip_literal(any)->0 is V6);
    let any4 = "0.0.0.0"@;
    assert(trimmed(any4) == any4);
    let zero = seq!['0'];
    assert(any4.drop_last().drop_last().drop_last().drop_last().drop_last().drop_last() =~= zero);
    let parts = split(any4, '.');
    assert(parts.len() == 4);
    assert(forall|i: int| 0 <= i < 4 ==> #[trigger] parts[i] =~= zero);
    assert(zero.drop_last() =~= Seq::<char>::empty());
    assert(crate::net::octet(zero) == Some(0nat));
    assert(v4_octets(any4) is Some);
    assert(header_models(config.security.custom_headers@) =~= Seq::<HeaderModel>::empty());
}

impl Default for AppConfig {
    fn default() -> (r: AppConfig)
        ensures
            is_fresh(r),
            is_some_key(r.security.shared_secret@),
    {
        let mut config = AppConfig {
            config_version: CONFIG_VERSION,
            server: ServerConfig::default(),
            security: SecurityConfig::default(),
            hosts: Vec::new(),
            client: ClientConfig::default(),
        };
        assert(trimmed(config.security.shared_secret@).len() == 0);
        config.ensure_secret();
        config
    }
}

impl AppConfig {
    /// Sets the given secret where there is none.
    pub fn ensure_secret_with(&mut self, secret: &[u8; 32])
        ensures
            same_but_secret(*final(self), *old(self)),
            final(self).security.shared_secret@ == if trimmed(
                old(self).security.shared_secret@,
            ).len() == 0 {
                key_text(secret@)
            } else {
                old(self).security.shared_secret@
            },
    {
        if trim(&self.security.shared_secret).as_str().is_empty() {
            self.security.shared_secret = write_key(secret);
        }
    }

    /// Sets a random secret where there is none.
    pub fn ensure_secret(&mut self)
        ensures
            same_but_secret(*final(self), *old(self)),
            if trimmed(old(self).security.shared_secret@).len() == 0 {
                is_some_key(final(self).security.shared_secret@)
            } else {
                final(self).security.shared_secret@ == old(self).security.shared_secret@
            },
    {
        let secret: [u8; 32] = random_32();
        self.ensure_secret_with(&secret);
    }

    /// Completes the server's key pair: where there is none the pair of
    /// `private`, where only the private key is there its public key.
    pub fn ensure_server_identity_with(&mut self, private: &[u8; 32]) -> (r: Result<
        (),
        ConfigError,
    >)
        ensures
            same_but_server_keys(*final(self), *old(self)),
            ({
                let was = old(self).security;
                let is = final(self).security;
                let unchanged = is.server_static_private_key@ == was.server_static_private_key@
                    && is.server_static_public_key@ == was.server_static_public_key@;
                if was.server_static_private_key@.len() == 0 {
                    if was.server_static_public_key@.len() != 0 {
                        &&& r is Err
                        &&& r->Err_0@ == "server public key requires its private key"@
                        &&& unchanged
                    } else {
                        &&& r is Ok
                        &&& (is.server_static_private_key@, is.server_static_public_key@)
                            == pair_texts(private@)
                    }
                } else if was.server_static_public_key@.len() == 0 {
                    match derived_public(was.server_static_private_key@) {
                        Ok(public) => {
                            &&& r is Ok
                            &&& is.server_static_private_key@ == was.server_static_private_key@
                            &&& is.server_static_public_key@ == public
                        },
                        Err(complaint) => r is Err && r->Err_0@ == complaint && unchanged,
                    }
                } else {
                    r is Ok && unchanged
                }
            }),
            // A pair that is complete is left alone by another call.
            r is Ok ==> final(self).security.server_static_private_key@.len() != 0
                && final(self).security.server_static_public_key@.len() != 0,
    {
        proof {
            reveal_strlit("hex:");
        }
        if self.security.server_static_private_key.as_str().is_empty() {
            if !self.security.server_static_public_key.as_str().is_empty() {
                return Err(
                    ConfigError::Invalid("server public key requires its private key".to_owned()),
                );
            }
            let pair: (String, String) = identity_pair(private);
            self.security.server_static_private_key = pair.0;
            self.security.server_static_public_key = pair.1;
        } else if self.security.server_static_public_key.as_str().is_empty() {
            match derive_public_key(&self.security.server_static_private_key) {
                Ok(public) => {
                    self.security.server_static_public_key = public;
                },
                Err(error) => {
                    return Err(error);
                },
            }
        }
        Ok(())
    }

    /// Completes the server's key pair, with a random one where there is none.
    pub fn ensure_server_identity_material(&mut self) -> (r: Result<(), ConfigError>)
        ensures
            same_but_server_keys(*final(self), *old(self)),
            ({
                let was = old(self).security;
                let is = final(self).security;
                if was.server_static_private_key@.len() == 0
                    && was.server_static_public_key@.len() == 0 {
                    r is Ok && exists|private: [u8; 32]|
                        (is.server_static_private_key@, is.server_static_public_key@) == pair_texts(
                            #[trigger] private@,
                        )
                } else if was.server_static_private_key@.len() == 0 {
                    &&& r is Err
                    &&& r->Err_0@ == "server public key requires its private key"@
                    &&& is.server_static_private_key@ == was.server_static_private_key@
                    &&& is.server_static_public_key@ == was.server_static_public_key@
                } else if was.server_static_public_key@.len() == 0 {
                    match derived_public(was.server_static_private_key@) {
                        Ok(public) => r is Ok && is.server_static_public_key@ == public,
                        Err(complaint) => {
                            &&& r is Err
                            &&& r->Err_0@ == complaint
                            &&& is.server_static_public_key@ == was.server_static_public_key@
                        },
                    }
                } else {
                    r is Ok && is.server_static_public_key@ == was.server_static_public_key@
                }
            }),
            old(self).security.server_static_private_key@.len() != 0
                ==> final(self).security.server_static_private_key@
                == old(self).security.server_static_private_key@,
            // A pair that is complete is left alone by another call.
            r is Ok ==> final(self).security.server_static_private_key@.len() != 0
                && final(self).security.server_static_public_key@.len() != 0,
    {
        let private: [u8; 32] = random_32();
        self.ensure_server_identity_with(&private)
    }

    /// Admits settings that were read from a file; where there was no file,
    /// those of a fresh installation.
    pub fn load(parsed: Option<AppConfig>) -> (r: Result<AppConfig, ConfigError>)
        ensures
            match parsed {
                Some(config) => match config.fault() {
                    None => r == Ok::<AppConfig, ConfigError>(config),
                    Some(complaint) => r is Err && r->Err_0@ == complaint,
                },
                None => match r {
                    Ok(config) => {
                        &&& is_fresh(config)
                        &&& is_some_key(config.security.shared_secret@)
                        &&& config.fault() is None
                    },
                    Err(error) => error@ == "shared secret cannot be all zero"@,
                },
            },
    {
        let config: AppConfig = match parsed {
            Some(config) => config,
            None => AppConfig::default(),
        };
        proof {
            if parsed is None {
                let secret = choose|bytes: [u8; 32]|
                    config.security.shared_secret@ == key_text(#[trigger] bytes@);
                fresh_settings_are_valid(config, secret);
            }
        }
        match config.validate() {
            Ok(()) => Ok(config),
            Err(error) => Err(error),
        }
    }

    /// Makes the settings ready to be written, with the given secret where
    /// they have none: they then have a secret and are valid.
    pub fn prepare_save_with(&mut self, secret: &[u8; 32]) -> (r: Result<(), ConfigError>)
        ensures
            same_but_secret(*final(self), *old(self)),
            final(self).security.shared_secret@ == if trimmed(
                old(self).security.shared_secret@,
            ).len() == 0 {
                key_text(secret@)
            } else {
                old(self).security.shared_secret@
            },
            reports(r, final(self).fault()),
    {
        self.ensure_secret_with(secret);
        self.validate()
    }

    /// Makes the settings ready to be written, with a random secret where they
    /// have none.
    pub fn prepare_save(&mut self) -> (r: Result<(), ConfigError>)
        ensures
            same_but_secret(*final(self), *old(self)),
            if trimmed(old(self).security.shared_secret@).len() == 0 {
                is_some_key(final(self).security.shared_secret@)
            } else {
                final(self).security.shared_secret@ == old(self).security.shared_secret@
            },
            reports(r, final(self).fault()),
    {
        let secret: [u8; 32] = random_32();
        self.prepare_save_with(&secret)
    }

    /// The part of the settings that a client keeps beside its credentials: no
    /// secret, no key, no enrolled client and no host is left in it.
    pub fn client_settings(&self) -> (r: Result<AppConfig, ConfigError>)
        ensures
            match r {
                Ok(settings) => {
                    &&& client_settings_fault(*self) is None
                    &&& is_client_settings(settings, *self)
                },
                Err(error) => client_settings_fault(*self) == Some(error@),
            },
    {
        let id: String = trim(&self.client.client_id);
        let client_id: String = if id.as_str().is_empty() {
            self.client.client_id.clone()
        } else {
            if let Some(text) = check_client_id(&self.client.client_id) {
                return Err(ConfigError::Invalid(text));
            }
            lower_text(&id)
        };
        if self.client.port < 1024 {
            return Err(ConfigError::Invalid("client port must be 1024 or higher".to_owned()));
        }
        if !trim(&self.client.address).as_str().is_empty() {
            if let Some(text) = check_endpoint(&self.client.address) {
                return Err(ConfigError::Invalid(text));
            }
        }
        if let Some(text) = check_headers(&self.security.custom_headers) {
            return Err(ConfigError::Invalid(text));
        }
        let headers: Vec<Header> = self.security.custom_headers.clone();
        assert(headers@ =~= self.security.custom_headers@);
        Ok(
            AppConfig {
                config_version: CONFIG_VERSION,
                server: ServerConfig {
                    bind_address: self.server.bind_address.clone(),
                    bind_address_v4: self.server.bind_address_v4.clone(),
                    port: self.server.port,
                    dual_stack: self.server.dual_stack,
                },
                security: SecurityConfig {
                    shared_secret: String::new(),
                    clock_skew_seconds: self.security.clock_skew_seconds,
                    max_requests_per_minute: self.security.max_requests_per_minute,
                    custom_headers: headers,
                    server_static_private_key: String::new(),
                    server_static_public_key: String::new(),
                    allow_unregistered_clients: self.security.allow_unregistered_clients,
                    allowed_clients: Vec::new(),
                    allow_public_targets: self.security.allow_public_targets,
                },
                hosts: Vec::new(),
                client: ClientConfig {
                    address: self.client.address.clone(),
                    port: self.client.port,
                    client_id,
                    static_private_key: String::new(),
                    static_public_key: String::new(),
                    pinned_server_static_key: String::new(),
                },
            },
        )
    }
}

/// The complaint about settings that a client wants to keep.
pub open spec fn client_settings_fault(config: AppConfig) -> Option<Seq<char>> {
    if trimmed(config.client.client_id@).len() != 0 && client_id_fault(
        config.client.client_id@,
    ) is Some {
        client_id_fault(config.client.client_id@)
    } else if config.client.port < 1024 {
        Some("client port must be 1024 or higher"@)
    } else if trimmed(config.client.address@).len() != 0 && endpoint_fault(
        config.client.address@,
    ) is Some {
        endpoint_fault(config.client.address@)
    } else {
        headers_fault(header_models(config.security.custom_headers@))
    }
}

/// What a client keeps of its settings.
pub open spec fn is_client_settings(settings: AppConfig, config: AppConfig) -> bool {
    &&& settings.config_version == CONFIG_VERSION
    &&& settings.server == config.server
    &&& settings.security.shared_secret@.len() == 0
    &&& settings.security.clock_skew_seconds == config.security.clock_skew_seconds
    &&& settings.security.max_requests_per_minute == config.security.max_requests_per_minute
    &&& settings.security.custom_headers@ == config.security.custom_headers@
    &&& settings.security.server_static_private_key@.len() == 0
    &&& settings.security.server_static_public_key@.len() == 0
    &&& settings.security.allow_unregistered_clients == config.security.allow_unregistered_clients
    &&& settings.security.allowed_clients@.len() == 0
    &&& settings.security.allow_public_targets == config.security.allow_public_targets
    &&& settings.hosts@.len() == 0
    &&& settings.client.address == config.client.address
    &&& settings.client.port == config.client.port
    &&& settings.client.client_id@ == if trimmed(config.client.client_id@).len() == 0 {
        config.client.client_id@
    } else {
        lowered(trimmed(config.client.client_id@))
    }
    &&& settings.client.static_private_key@.len() == 0
    &&& settings.client.static_public_key@.len() == 0
    &&& settings.client.pinned_server_static_key@.len() == 0
}

/// What a written document holds.
#[derive(Clone, Copy, Debug, PartialEq, Eq, Structural)]
pub enum Document {
    /// All settings.
    Config,
    /// What a client keeps of them.
    ClientSettings,
}

impl Document {
    /// What is said of such a document that is too large.
    pub open spec fn complaint(self) -> Seq<char> {
        match self {
            Document::Config => "serialized config exceeds 1048576 bytes"@,
            Document::ClientSettings => "serialized client settings exceed 1048576 bytes"@,
        }
    }
}

/// Ends a written document with a line feed and bounds its size.
pub fn finish_document(text: &str, document: Document) -> (r: Result<String, ConfigError>)
    ensures
        if byte_count(text@ + "\n"@) > MAX_CONFIG_BYTES {
            r is Err && r->Err_0@ == document.complaint()
        } else {
            r is Ok && r->Ok_0@ == text@ + "\n"@
        },
{
    let finished: String = joined(text, "\n");
    if byte_len(&finished) > MAX_CONFIG_BYTES {
        let complaint: &str = match document {
            Document::Config => "serialized config exceeds 1048576 bytes",
            Document::ClientSettings => "serialized client settings exceed 1048576 bytes",
        };
        return Err(ConfigError::Invalid(complaint.to_owned()));
    }
    Ok(finished)
}

/// A valid configuration names at most 64 hosts, each once and by an identifier
/// that the wire accepts, so that its catalogue is always one that a client
/// accepts.
pub proof fn valid_hosts_are_valid_on_the_wire(config: AppConfig, i: int, j: int)
    requires
        config.fault() is None,
        0 <= i < config.hosts@.len(),
        0 <= j < config.hosts@.len(),
    ensures
        config.hosts@.len() <= crate::protocol::MAX_HOSTS,
        is_id(host_ids_of(config.hosts@)[i]),
        i != j ==> host_ids_of(config.hosts@)[i] != host_ids_of(config.hosts@)[j],
{
    let allow = config.security.allow_public_targets;
    hosts_accepted(config.hosts@, allow, 0, i);
    hosts_accepted(config.hosts@, allow, 0, j);
    let ids = host_ids_of(config.hosts@);
    if i < j {
        assert(host_ids_of(config.hosts@.take(j))[i] == ids[i]);
    }
    if j < i {
        assert(host_ids_of(config.hosts@.take(i))[j] == ids[j]);
    }
}

proof fn hosts_accepted(hosts: Seq<HostConfig>, allow_public: bool, k: int, i: int)
    requires
        hosts_fault(hosts, allow_public, k) is None,
        0 <= k <= i < hosts.len(),
    ensures
        hosts[i].fault(allow_public) is None,
        !host_ids_of(hosts.take(i)).contains(host_id_of(hosts[i].hostname@)),
    decreases i - k,
{
    if k < i {
        hosts_accepted(hosts, allow_public, k + 1, i);
    }
}

pub proof fn clients_accepted(clients: Seq<AllowedClient>, ids: Seq<Seq<char>>, k: int, i: int)
    requires
        clients_fault(clients, ids, k) is None,
        0 <= k <= i < clients.len(),
    ensures
        clients[i].fault(ids) is None,
        !client_ids_of(clients.take(i)).contains(lowered(clients[i].client_id@)),
        !client_keys_of(clients.take(i)).contains(key_read(clients[i].static_public_key@)->Ok_0),
    decreases i - k,
{
    if k < i {
        clients_accepted(clients, ids, k + 1, i);
    }
}

pub proof fn allowed_hosts_accepted(
    client_id: Seq<char>,
    allowed: Seq<Seq<char>>,
    host_ids: Seq<Seq<char>>,
    k: int,
    i: int,
)
    requires
        allowed_hosts_fault(client_id, allowed, host_ids, k) is None,
        0 <= k <= i < allowed.len(),
    ensures
        host_ids.contains(host_id_of(allowed[i])),
        !normal_ids(allowed.take(i)).contains(host_id_of(allowed[i])),
    decreases i - k,
{
    if k < i {
        allowed_hosts_accepted(client_id, allowed, host_ids, k + 1, i);
    }
}

/// In a valid configuration every enrolled client has an identifier that the
/// wire accepts in small letters, a key of its own that is not of low order, and
/// access to configured hosts only.
pub proof fn valid_clients_are_sound(config: AppConfig, i: int, j: int, h: int)
    requires
        config.fault() is None,
        0 <= i < config.security.allowed_clients@.len(),
        0 <= j < config.security.allowed_clients@.len(),
    ensures
        ({
            let clients = config.security.allowed_clients@;
            let client = clients[i];
            &&& is_id(lowered(client.client_id@))
            &&& key_read(client.static_public_key@) is Ok
            &&& !low_order(key_read(client.static_public_key@)->Ok_0)
            &&& 0 <= h < client.allowed_hosts@.len() ==> host_ids_of(config.hosts@).contains(
                host_id_of(client.allowed_hosts@[h]@),
            )
            &&& i != j ==> client_keys_of(clients)[i] != client_keys_of(clients)[j]
            &&& i != j ==> client_ids_of(clients)[i] != client_ids_of(clients)[j]
        }),
{
    let clients = config.security.allowed_clients@;
    let ids = host_ids_of(config.hosts@);
    clients_accepted(clients, ids, 0, i);
    clients_accepted(clients, ids, 0, j);
    let allowed = texts(clients[i].allowed_hosts@);
    if 0 <= h < clients[i].allowed_hosts@.len() {
        allowed_hosts_accepted(clients[i].client_id@, allowed, ids, 0, h);
    }
    if i < j {
        assert(client_keys_of(clients.take(j))[i] == client_keys_of(clients)[i]);
        assert(client_ids_of(clients.take(j))[i] == client_ids_of(clients)[i]);
    }
    if j < i {
        assert(client_keys_of(clients.take(i))[j] == client_keys_of(clients)[j]);
        assert(client_ids_of(clients.take(i))[j] == client_ids_of(clients)[j]);
    }
}

proof fn same_hosts_same_fault(a: Seq<HostConfig>, b: Seq<HostConfig>, allow_public: bool, k: int)
    requires
        host_models(a) == host_models(b),
        0 <= k <= a.len(),
    ensures
        a.len() == b.len(),
        host_ids_of(a) == host_ids_of(b),
        hosts_fault(a, allow_public, k) == hosts_fault(b, allow_public, k),
    decreases a.len() - k,
{
    assert(a.len() == host_models(a).len() && b.len() == host_models(b).len());
    assert forall|i: int| 0 <= i < a.len() implies (#[trigger] a[i])@ == b[i]@ by {
        assert(host_models(a)[i] == a[i]@ && host_models(b)[i] == b[i]@);
    }
    assert(host_ids_of(a) =~= host_ids_of(b));
    if k < a.len() {
        assert(a[k]@ == b[k]@);
        assert(host_ids_of(a.take(k)) =~= host_ids_of(b.take(k)));
        same_hosts_same_fault(a, b, allow_public, k + 1);
    }
}

proof fn same_clients_same_fault(
    a: Seq<AllowedClient>,
    b: Seq<AllowedClient>,
    host_ids: Seq<Seq<char>>,
    k: int,
)
    requires
        allowed_models(a) == allowed_models(b),
        0 <= k <= a.len(),
    ensures
        a.len() == b.len(),
        clients_fault(a, host_ids, k) == clients_fault(b, host_ids, k),
    decreases a.len() - k,
{
    assert(a.len() == allowed_models(a).len() && b.len() == allowed_models(b).len());
    assert forall|i: int| 0 <= i < a.len() implies (#[trigger] a[i])@ == b[i]@ by {
        assert(allowed_models(a)[i] == a[i]@ && allowed_models(b)[i] == b[i]@);
    }
    if k < a.len() {
        assert(a[k]@ == b[k]@);
        assert(texts(a[k].allowed_hosts@).len() == texts(b[k].allowed_hosts@).len());
        assert(client_ids_of(a.take(k)) =~= client_ids_of(b.take(k)));
        assert(client_keys_of(a.take(k)) =~= client_keys_of(b.take(k)));
        same_clients_same_fault(a, b, host_ids, k + 1);
    }
}

/// Settings that say the same are valid alike, or have the same fault.
pub proof fn same_settings_have_the_same_fault(a: AppConfig, b: AppConfig)
    requires
        a@ == b@,
    ensures
        a.fault() == b.fault(),
{
    same_hosts_same_fault(a.hosts@, b.hosts@, a.security.allow_public_targets, 0);
    same_clients_same_fault(
        a.security.allowed_clients@,
        b.security.allowed_clients@,
        host_ids_of(a.hosts@),
        0,
    );
}

} // verus!
