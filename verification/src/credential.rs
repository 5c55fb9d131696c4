//! Credentials that a server issues to a client, and what a client runs with.

use crate::clock::SECOND;
use crate::config::{
    check_headers, check_pair, decode_key, decode_secret, display_label, headers_fault,
    is_display_label, key_read, pair_fault, secret_read, AppConfig, ConfigError,
};
use crate::crypto::x25519_public;
use crate::protocol::{
    ascending, canonical_headers, header_models, is_id, validate_id, Header, HeaderModel,
};
use crate::security::{
    client_id_from_public_key, fingerprint_of, Identity, SecurityError,
};
use crate::text::{byte_count, byte_len, chars_of, joined, trim, trimmed};
use vstd::prelude::*;

verus! {

pub const CREDENTIAL_VERSION: u32 = 1;

pub const MAX_CREDENTIAL_BYTES: usize = 16384;

/// Why a client does not start or connect.
#[derive(Debug, PartialEq, Eq)]
pub enum ClientError {
    Config(ConfigError),
    Security(SecurityError),
    Endpoint,
    Credential,
}

pub enum ClientFault {
    Config(Seq<char>),
    Security(SecurityError),
    Endpoint,
    Credential,
}

impl View for ClientError {
    type V = ClientFault;

    open spec fn view(&self) -> ClientFault {
        match *self {
            ClientError::Config(error) => ClientFault::Config(error@),
            ClientError::Security(error) => ClientFault::Security(error),
            ClientError::Endpoint => ClientFault::Endpoint,
            ClientError::Credential => ClientFault::Credential,
        }
    }
}

/// A credential that a server has issued. It is kept apart from the settings, so
/// that a copy of the settings grants nothing.
#[derive(PartialEq, Eq)]
pub struct CredentialBundle {
    pub version: u32,
    /// The digest of the client's public key.
    pub client_id: String,
    /// A label for people; it decides nothing.
    pub device_label: String,
    pub shared_secret: String,
    pub static_private_key: String,
    pub static_public_key: String,
    pub pinned_server_static_key: String,
    /// Headers that every request carries, in the order of their names.
    pub custom_headers: Vec<Header>,
}

/// What a bundle says.
pub struct BundleModel {
    pub version: u32,
    pub client_id: Seq<char>,
    pub device_label: Seq<char>,
    pub shared_secret: Seq<char>,
    pub static_private_key: Seq<char>,
    pub static_public_key: Seq<char>,
    pub pinned_server_static_key: Seq<char>,
    pub custom_headers: Seq<HeaderModel>,
}

impl View for CredentialBundle {
    type V = BundleModel;

    open spec fn view(&self) -> BundleModel {
        BundleModel {
            version: self.version,
            client_id: self.client_id@,
            device_label: self.device_label@,
            shared_secret: self.shared_secret@,
            static_private_key: self.static_private_key@,
            static_public_key: self.static_public_key@,
            pinned_server_static_key: self.pinned_server_static_key@,
            custom_headers: header_models(self.custom_headers@),
        }
    }
}

impl CredentialBundle {
    /// The key pair that the bundle holds.
    pub open spec fn holds(self, identity: Identity) -> bool {
        &&& key_read(self.static_private_key@) == Ok::<Seq<u8>, Seq<char>>(identity.private@)
        &&& key_read(self.static_public_key@) == Ok::<Seq<u8>, Seq<char>>(identity.public@)
        &&& identity.sound()
    }

    /// The bundle is of this form, whole and consistent: its identifier belongs
    /// to its key, and its key to its private key.
    pub open spec fn is_valid(self) -> bool {
        let private = key_read(self.static_private_key@);
        let public = key_read(self.static_public_key@);
        &&& self.version == CREDENTIAL_VERSION
        &&& is_id(self.client_id@)
        &&& is_display_label(self.device_label@)
        &&& private is Ok
        &&& public is Ok
        &&& public->Ok_0 == x25519_public(private->Ok_0)
        &&& self.client_id@ == fingerprint_of(public->Ok_0)
        &&& key_read(self.pinned_server_static_key@) is Ok
        &&& secret_read(self.shared_secret@) is Ok
        &&& headers_fault(header_models(self.custom_headers@)) is None
        &&& pair_fault(self.static_private_key@, self.static_public_key@, "client"@) is None
    }

    /// Checks the bundle and takes its key pair out.
    pub fn validate(&self) -> (r: Result<Identity, ClientError>)
        ensures
            if self.is_valid() {
                r is Ok && self.holds(r->Ok_0)
            } else {
                r is Err && r->Err_0@ == ClientFault::Credential
            },
    {
        if self.version != CREDENTIAL_VERSION || validate_id(&self.client_id).is_err()
            || !display_label(&self.device_label) {
            return Err(ClientError::Credential);
        }
        let identity: Identity = match Identity::from_hex(
            &self.static_private_key,
            &self.static_public_key,
        ) {
            Ok(identity) => identity,
            Err(_) => {
                return Err(ClientError::Credential);
            },
        };
        if !crate::text::same_text(
            &self.client_id,
            &client_id_from_public_key(&identity.public),
        ) || decode_key(&self.pinned_server_static_key).is_err() || decode_secret(
            &self.shared_secret,
        ).is_err() || check_headers(&self.custom_headers).is_some() || check_pair(
            &self.static_private_key,
            &self.static_public_key,
            "client",
        ).is_some() {
            return Err(ClientError::Credential);
        }
        Ok(identity)
    }
}

/// Whether a bundle that was found is the one that was issued for a key.
pub fn bundle_belongs(bundle: &CredentialBundle, expected_public_key: &str) -> (r: Result<
    (),
    ClientError,
>)
    ensures
        if key_read(expected_public_key@) is Ok && bundle.is_valid() && key_read(
            bundle.static_public_key@,
        ) == key_read(expected_public_key@) {
            r == Ok::<(), ClientError>(())
        } else {
            r is Err && r->Err_0@ == ClientFault::Credential
        },
{
    let expected: [u8; 32] = match decode_key(expected_public_key) {
        Ok(key) => key,
        Err(_) => {
            return Err(ClientError::Credential);
        },
    };
    match bundle.validate() {
        Ok(identity) => {
            proof {
                crate::octets::key_ext(identity.public, expected);
            }
            if crate::octets::same_key(&identity.public, &expected) {
                Ok(())
            } else {
                Err(ClientError::Credential)
            }
        },
        Err(error) => Err(error),
    }
}

/// The name of a file is that of a credential.
pub open spec fn is_credential_name(name: Seq<char>) -> bool {
    ".credential.toml"@.is_suffix_of(name)
}

#[verifier::loop_isolation(false)]
pub fn credential_name(name: &str) -> (r: bool)
    ensures
        r == is_credential_name(name@),
{
    let suffix: Vec<char> = chars_of(".credential.toml");
    let chars: Vec<char> = chars_of(name);
    if chars.len() < suffix.len() {
        return false;
    }
    let start: usize = chars.len() - suffix.len();
    let mut i: usize = 0;
    while i < suffix.len()
        invariant
            i <= suffix@.len(),
            forall|k: int| 0 <= k < i ==> chars@[start + k] == suffix@[k],
        decreases suffix@.len() - i,
    {
        if chars[start + i] != suffix[i] {
            assert(name@.subrange(start as int, name@.len() as int)[i as int] != suffix@[i as int]);
            return false;
        }
        i += 1;
    }
    assert(name@.subrange(start as int, name@.len() as int) =~= suffix@);
    true
}

/// Which credential a client takes.
#[derive(Clone, Copy, Debug, PartialEq, Eq, Structural)]
pub enum CredentialChoice {
    /// The one that goes with the settings.
    Primary,
    /// The only other one, by its place in the list.
    Other(usize),
    /// There is more than one.
    Ambiguous,
    /// There is none.
    Missing,
}

/// The places of the credentials in a list of names.
pub open spec fn credential_places(names: Seq<Seq<char>>) -> Seq<int>
    decreases names.len(),
{
    if names.len() == 0 {
        Seq::empty()
    } else {
        let front = credential_places(names.drop_last());
        if is_credential_name(names.last()) {
            front.push(names.len() - 1)
        } else {
            front
        }
    }
}

/// Chooses the credential: the primary one where it is there, else the only one
/// of the other files beside the settings, whose names are given.
#[verifier::loop_isolation(false)]
pub fn choose_credential(primary: bool, others: &Vec<String>) -> (r: CredentialChoice)
    ensures
        ({
            let places = credential_places(crate::text::texts(others@));
            r == if primary {
                CredentialChoice::Primary
            } else if places.len() == 0 {
                CredentialChoice::Missing
            } else if places.len() == 1 {
                CredentialChoice::Other(places[0] as usize)
            } else {
                CredentialChoice::Ambiguous
            }
        }),
{
    if primary {
        return CredentialChoice::Primary;
    }
    let ghost all = crate::text::texts(others@);
    let mut found: Option<usize> = None;
    let mut i: usize = 0;
    assert(all.take(0) =~= Seq::<Seq<char>>::empty());
    while i < others.len()
        invariant
            i <= others@.len(),
            match found {
                None => credential_places(all.take(i as int)).len() == 0,
                Some(k) => credential_places(all.take(i as int)) == seq![k as int],
            },
        decreases others@.len() - i,
    {
        assert(all.take(i + 1).drop_last() =~= all.take(i as int));
        assert(all.take(i + 1).last() == others@[i as int]@);
        if credential_name(&others[i]) {
            if found.is_some() {
                proof {
                    places_grow(all, i + 1);
                }
                return CredentialChoice::Ambiguous;
            }
            found = Some(i);
            assert(credential_places(all.take(i + 1)) =~= seq![i as int]);
        }
        i += 1;
    }
    assert(all.take(i as int) =~= all);
    match found {
        Some(k) => CredentialChoice::Other(k),
        None => CredentialChoice::Missing,
    }
}

proof fn places_grow(names: Seq<Seq<char>>, i: int)
    requires
        0 <= i <= names.len(),
    ensures
        credential_places(names.take(i)).len() <= credential_places(names).len(),
    decreases names.len() - i,
{
    if i < names.len() {
        assert(names.take(i + 1).drop_last() =~= names.take(i));
        places_grow(names, i + 1);
    } else {
        assert(names.take(i) =~= names);
    }
}

/// The label without white space around it, if there is anything in it.
pub open spec fn label_of(label: Seq<char>) -> Option<Seq<char>> {
    if trimmed(label).len() == 0 {
        None
    } else {
        Some(trimmed(label))
    }
}

pub open spec fn text_of_option(text: Option<String>) -> Option<Seq<char>> {
    match text {
        Some(text) => Some(text@),
        None => None,
    }
}

/// The settings are as before, but for what a credential gives.
pub open spec fn with_credential(after: AppConfig, before: AppConfig, bundle: CredentialBundle) -> bool {
    &&& after.config_version == before.config_version
    &&& after.server == before.server
    &&& after.hosts == before.hosts
    &&& after.security == (crate::config::SecurityConfig {
        shared_secret: bundle.shared_secret,
        custom_headers: bundle.custom_headers,
        ..before.security
    })
    &&& after.client.address == before.client.address
    &&& after.client.port == before.client.port
    &&& after.client.client_id@ == bundle.client_id@
    &&& after.client.static_private_key == bundle.static_private_key
    &&& after.client.static_public_key == bundle.static_public_key
    &&& after.client.pinned_server_static_key == bundle.pinned_server_static_key
}

/// Puts a credential into the settings; the result is its label.
pub fn apply_credential_bundle(config: &mut AppConfig, bundle: CredentialBundle) -> (r: Result<
    Option<String>,
    ClientError,
>)
    ensures
        if bundle.is_valid() {
            &&& r is Ok
            &&& text_of_option(r->Ok_0) == label_of(bundle.device_label@)
            &&& with_credential(*final(config), *old(config), bundle)
        } else {
            &&& r is Err && r->Err_0@ == ClientFault::Credential
            &&& *final(config) == *old(config)
        },
{
    let identity: Identity = match bundle.validate() {
        Ok(identity) => identity,
        Err(error) => {
            return Err(error);
        },
    };
    let client_id: String = client_id_from_public_key(&identity.public);
    let label: String = trim(&bundle.device_label);
    let device_label: Option<String> = if label.as_str().is_empty() {
        None
    } else {
        Some(label)
    };
    config.security.shared_secret = bundle.shared_secret;
    config.client.client_id = client_id;
    config.client.static_private_key = bundle.static_private_key;
    config.client.static_public_key = bundle.static_public_key;
    config.client.pinned_server_static_key = bundle.pinned_server_static_key;
    config.security.custom_headers = bundle.custom_headers;
    Ok(device_label)
}

/// What a client runs with. It is kept apart from the settings, so that these can
/// be read and written without the credentials.
pub struct ClientRuntimeConfig {
    pub address: String,
    pub port: u16,
    pub client_id: String,
    pub psk: [u8; 32],
    pub identity: Identity,
    pub pinned_server_key: [u8; 32],
    pub headers: Vec<Header>,
    pub clock_skew: u64,
    /// A label for people; it decides nothing.
    pub device_label: Option<String>,
}

/// Why the headers of the settings are refused.
pub open spec fn map_fault(headers: Seq<HeaderModel>) -> Option<ClientFault> {
    if crate::config::each_header_fault(headers, 0) is Some {
        Some(ClientFault::Config(crate::config::each_header_fault(headers, 0)->0))
    } else if crate::protocol::headers_fault(headers) is Some {
        Some(
            ClientFault::Security(
                SecurityError::Protocol(crate::protocol::headers_fault(headers)->0),
            ),
        )
    } else {
        None
    }
}

/// The headers of the settings, in the order that a message must have.
#[verifier::loop_isolation(false)]
pub fn headers_from_map(map: &Vec<Header>) -> (r: Result<Vec<Header>, ClientError>)
    ensures
        match map_fault(header_models(map@)) {
            None => {
                &&& r is Ok
                &&& ascending(header_models(r->Ok_0@))
                &&& header_models(r->Ok_0@).to_multiset() == header_models(map@).to_multiset()
            },
            Some(fault) => r is Err && r->Err_0@ == fault,
        },
{
    let ghost all = header_models(map@);
    let mut k: usize = 0;
    while k < map.len()
        invariant
            k <= map@.len(),
            crate::config::each_header_fault(all, 0) == crate::config::each_header_fault(
                all,
                k as int,
            ),
        decreases map@.len() - k,
    {
        if let Err(error) = crate::config::validate_header(&map[k].name, &map[k].value) {
            return Err(ClientError::Config(error));
        }
        k += 1;
    }
    let copy: Vec<Header> = map.clone();
    assert(copy@ =~= map@);
    match canonical_headers(copy) {
        Ok(headers) => Ok(headers),
        Err(fault) => Err(ClientError::Security(SecurityError::Protocol(fault))),
    }
}

/// Why a client cannot run with the settings.
pub open spec fn client_config_fault(config: AppConfig) -> Option<ClientFault> {
    let private = key_read(config.client.static_private_key@);
    let public = key_read(config.client.static_public_key@);
    if config.fault() is Some {
        Some(ClientFault::Config(config.fault()->0))
    } else if private is Err || public is Err || public->Ok_0 != x25519_public(private->Ok_0) {
        Some(ClientFault::Security(SecurityError::Identity))
    } else if key_read(config.client.pinned_server_static_key@) is Err {
        Some(ClientFault::Security(SecurityError::PinRequired))
    } else if trimmed(config.client.address@).len() == 0 {
        Some(ClientFault::Endpoint)
    } else {
        map_fault(header_models(config.security.custom_headers@))
    }
}

/// The runtime is the one of the settings. The identifier that the client goes by
/// is the digest of its key, whatever name the settings have.
pub open spec fn is_runtime_of(
    runtime: ClientRuntimeConfig,
    config: AppConfig,
    label: Option<Seq<char>>,
) -> bool {
    &&& runtime.address@ == trimmed(config.client.address@)
    &&& runtime.port == config.client.port
    &&& runtime.client_id@ == fingerprint_of(runtime.identity.public@)
    &&& secret_read(config.security.shared_secret@) == Ok::<Seq<u8>, Seq<char>>(runtime.psk@)
    &&& runtime.identity.sound()
    &&& key_read(config.client.static_private_key@) == Ok::<Seq<u8>, Seq<char>>(
        runtime.identity.private@,
    )
    &&& key_read(config.client.static_public_key@) == Ok::<Seq<u8>, Seq<char>>(
        runtime.identity.public@,
    )
    &&& key_read(config.client.pinned_server_static_key@) == Ok::<Seq<u8>, Seq<char>>(
        runtime.pinned_server_key@,
    )
    &&& ascending(header_models(runtime.headers@))
    &&& header_models(runtime.headers@).to_multiset() == header_models(
        config.security.custom_headers@,
    ).to_multiset()
    &&& runtime.clock_skew == config.security.clock_skew_seconds * SECOND
    &&& text_of_option(runtime.device_label) == match label {
        Some(text) if trimmed(text).len() != 0 => Some(text),
        _ => None,
    }
}

impl ClientRuntimeConfig {
    /// What a client runs with, from complete settings.
    pub fn from_config_with_label(config: &AppConfig, device_label: Option<String>) -> (r: Result<
        ClientRuntimeConfig,
        ClientError,
    >)
        ensures
            match client_config_fault(*config) {
                None => r is Ok && is_runtime_of(
                    r->Ok_0,
                    *config,
                    text_of_option(device_label),
                ),
                Some(fault) => r is Err && r->Err_0@ == fault,
            },
    {
        if let Err(error) = config.validate() {
            return Err(ClientError::Config(error));
        }
        assert(config.security.limits_fault() is None);
        let psk: [u8; 32] = match config.secret_key() {
            Ok(psk) => psk,
            Err(error) => {
                return Err(ClientError::Config(error));
            },
        };
        let identity: Identity = match Identity::from_hex(
            &config.client.static_private_key,
            &config.client.static_public_key,
        ) {
            Ok(identity) => identity,
            Err(error) => {
                return Err(ClientError::Security(error));
            },
        };
        let pinned_server_key: [u8; 32] = match decode_key(
            &config.client.pinned_server_static_key,
        ) {
            Ok(key) => key,
            Err(_) => {
                return Err(ClientError::Security(SecurityError::PinRequired));
            },
        };
        let address: String = trim(&config.client.address);
        if address.as_str().is_empty() {
            return Err(ClientError::Endpoint);
        }
        let headers: Vec<Header> = match headers_from_map(&config.security.custom_headers) {
            Ok(headers) => headers,
            Err(error) => {
                return Err(error);
            },
        };
        let client_id: String = client_id_from_public_key(&identity.public);
        let device_label: Option<String> = match device_label {
            Some(label) => if trim(&label).as_str().is_empty() {
                None
            } else {
                Some(label)
            },
            None => None,
        };
        Ok(
            ClientRuntimeConfig {
                address,
                port: config.client.port,
                client_id,
                psk,
                identity,
                pinned_server_key,
                headers,
                clock_skew: config.security.clock_skew_seconds * SECOND,
                device_label,
            },
        )
    }
}

/// The settings of a client, once its endpoint is overridden, what belongs to a
/// server is taken out, and its credential is put in.
pub open spec fn is_joined(
    out: AppConfig,
    config: AppConfig,
    bundle: CredentialBundle,
    address: Option<String>,
    port: Option<u16>,
) -> bool {
    &&& out.config_version == config.config_version
    &&& out.server == config.server
    &&& out.hosts@.len() == 0
    &&& out.security.shared_secret == bundle.shared_secret
    &&& out.security.clock_skew_seconds == config.security.clock_skew_seconds
    &&& out.security.max_requests_per_minute == config.security.max_requests_per_minute
    &&& out.security.custom_headers == bundle.custom_headers
    &&& out.security.server_static_private_key@.len() == 0
    &&& out.security.server_static_public_key@.len() == 0
    &&& out.security.allow_unregistered_clients == config.security.allow_unregistered_clients
    &&& out.security.allowed_clients@.len() == 0
    &&& out.security.allow_public_targets == config.security.allow_public_targets
    &&& out.client.address == match address {
        Some(address) => address,
        None => config.client.address,
    }
    &&& out.client.port == match port {
        Some(port) => port,
        None => config.client.port,
    }
    &&& out.client.client_id@ == bundle.client_id@
    &&& out.client.static_private_key == bundle.static_private_key
    &&& out.client.static_public_key == bundle.static_public_key
    &&& out.client.pinned_server_static_key == bundle.pinned_server_static_key
}

/// Refuses settings that hold a server's private key: a client never takes one
/// in.
pub fn refuse_server_settings(config: &AppConfig) -> (r: Result<(), ClientError>)
    ensures
        if trimmed(config.security.server_static_private_key@).len() != 0 {
            r is Err && r->Err_0@ == ClientFault::Credential
        } else {
            r is Ok
        },
{
    if trim(&config.security.server_static_private_key).as_str().is_empty() {
        Ok(())
    } else {
        Err(ClientError::Credential)
    }
}

/// What a client runs with, from its settings, its credential and what was
/// overridden. Settings with a server's private key are refused.
pub fn load_runtime(
    config: AppConfig,
    bundle: CredentialBundle,
    address_override: Option<String>,
    port_override: Option<u16>,
) -> (r: Result<ClientRuntimeConfig, ClientError>)
    ensures
        if trimmed(config.security.server_static_private_key@).len() != 0 || !bundle.is_valid() {
            r is Err && r->Err_0@ == ClientFault::Credential
        } else {
            exists|out: AppConfig|
                {
                    &&& #[trigger] is_joined(out, config, bundle, address_override, port_override)
                    &&& match client_config_fault(out) {
                        None => r is Ok && is_runtime_of(
                            r->Ok_0,
                            out,
                            label_of(bundle.device_label@),
                        ),
                        Some(fault) => r is Err && r->Err_0@ == fault,
                    }
                }
        },
{
    if let Err(error) = refuse_server_settings(&config) {
        return Err(error);
    }
    let mut out: AppConfig = config;
    out.security.server_static_private_key = String::new();
    out.security.server_static_public_key = String::new();
    out.security.allowed_clients = Vec::new();
    out.hosts = Vec::new();
    if let Some(address) = address_override {
        out.client.address = address;
    }
    if let Some(port) = port_override {
        out.client.port = port;
    }
    let label: Option<String> = match apply_credential_bundle(&mut out, bundle) {
        Ok(label) => label,
        Err(error) => {
            return Err(error);
        },
    };
    assert(is_joined(out, config, bundle, address_override, port_override));
    ClientRuntimeConfig::from_config_with_label(&out, label)
}

/// Bounds the size of a written credential, and ends it with a line feed.
pub fn finish_credential(text: &str) -> (r: Result<String, ClientError>)
    ensures
        if byte_count(text@) > MAX_CREDENTIAL_BYTES {
            r is Err && r->Err_0@ == ClientFault::Credential
        } else {
            r is Ok && r->Ok_0@ == text@ + "\n"@
        },
{
    if byte_len(text) > MAX_CREDENTIAL_BYTES {
        return Err(ClientError::Credential);
    }
    Ok(joined(text, "\n"))
}

} // verus!
