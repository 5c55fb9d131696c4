//! Identities, and who may connect.
//!
//! A client is known by its key. Its identifier is the digest of the key, so that
//! a name that was given to another key is of no use to it.

use crate::clock::SECOND;
use crate::config::{
    array_32, decode_key, host_id_of, is_low_order, key_read, key_text, low_order, write_key,
    AllowedClient,
};
use crate::crypto::{
    digest, hex_encode, hex_text, public_key, random_16, sha256, wipe, x25519_public,
};
use crate::noise::noise_keypair;
use crate::octets::{all_zero, is_zero, same_key};
use crate::protocol::{
    ascending, canonical_headers, header_models, headers_fault, is_id, validate_id, Header,
    ProtocolError,
};
use crate::text::{listed, lower_text, texts, trim};
use vstd::prelude::*;

verus! {

/// IK authenticates the initiator's static key in the first encrypted message
/// and needs the responder's key beforehand. The preshared keys at positions 0
/// and 2 bind both the first flight and the whole transcript to the secret.
pub const NOISE_PATTERN: &'static str = "Noise_IKpsk0+psk2_25519_ChaChaPoly_BLAKE2s";

pub const PROLOGUE: &'static str = "RemoteOpenPower/tcp/v1/noise-ikpsk0+psk2";

pub const MAX_RECORD_BYTES: usize = 65536;

pub const MAX_PAYLOAD_BYTES: usize = 32768;

pub const MAX_HANDSHAKE_RECORD_BYTES: usize = 8192;

pub const READ_CHUNK_BYTES: usize = 8192;

pub const HANDSHAKE_TIMEOUT: u64 = 5 * SECOND;

pub const WRITE_TIMEOUT: u64 = 3 * SECOND;

/// What went wrong with a socket.
#[derive(Clone, Copy, Debug, PartialEq, Eq, Structural)]
pub enum IoFault {
    TimedOut,
    WriteZero,
    UnexpectedEof,
    Other,
}

#[derive(Clone, Copy, Debug, PartialEq, Eq, Structural)]
pub enum SecurityError {
    Io(IoFault),
    Handshake,
    Transport,
    FrameTooLarge,
    Sequence,
    Replay,
    Unauthorized,
    PinRequired,
    Expired,
    Identity,
    Protocol(ProtocolError),
}

impl SecurityError {
    /// What is said of a connection that failed; no more than the kind of fault.
    pub open spec fn text(self) -> Seq<char> {
        match self {
            SecurityError::Io(_) => "I/O error"@,
            SecurityError::Handshake => "Noise handshake failed"@,
            SecurityError::Transport => "secure transport failed"@,
            SecurityError::FrameTooLarge => "secure frame is too large"@,
            SecurityError::Sequence => "secure sequence is invalid"@,
            SecurityError::Replay => "secure session is expired or replayed"@,
            SecurityError::Unauthorized => "peer identity is not pinned/authorized"@,
            SecurityError::PinRequired => "peer identity pin is required"@,
            SecurityError::Expired => "handshake timestamp is outside the allowed window"@,
            SecurityError::Identity => "invalid identity key"@,
            SecurityError::Protocol(_) => "protocol error"@,
        }
    }

    pub fn as_str(self) -> (r: &'static str)
        ensures
            r@ == self.text(),
    {
        match self {
            SecurityError::Io(_) => "I/O error",
            SecurityError::Handshake => "Noise handshake failed",
            SecurityError::Transport => "secure transport failed",
            SecurityError::FrameTooLarge => "secure frame is too large",
            SecurityError::Sequence => "secure sequence is invalid",
            SecurityError::Replay => "secure session is expired or replayed",
            SecurityError::Unauthorized => "peer identity is not pinned/authorized",
            SecurityError::PinRequired => "peer identity pin is required",
            SecurityError::Expired => "handshake timestamp is outside the allowed window",
            SecurityError::Identity => "invalid identity key",
            SecurityError::Protocol(_) => "protocol error",
        }
    }
}

/// A static key pair.
#[derive(PartialEq, Eq)]
pub struct Identity {
    pub private: [u8; 32],
    pub public: [u8; 32],
}

impl Identity {
    /// The two keys belong together.
    pub open spec fn sound(self) -> bool {
        self.public@ == x25519_public(self.private@)
    }

    /// Reads a key pair; the public key must belong to the private key.
    pub fn from_hex(private: &str, public: &str) -> (r: Result<Identity, SecurityError>)
        ensures
            match (key_read(private@), key_read(public@)) {
                (Ok(secret), Ok(open)) if open == x25519_public(secret) => {
                    &&& r is Ok
                    &&& r->Ok_0.private@ == secret
                    &&& r->Ok_0.public@ == open
                    &&& r->Ok_0.sound()
                },
                _ => r == Err::<Identity, SecurityError>(SecurityError::Identity),
            },
    {
        match (decode_key(private), decode_key(public)) {
            (Ok(private), Ok(public)) => {
                let derived: [u8; 32] = public_key(&private);
                proof {
                    crate::octets::key_ext(derived, public);
                }
                if !same_key(&derived, &public) {
                    return Err(SecurityError::Identity);
                }
                Ok(Identity { private, public })
            },
            _ => Err(SecurityError::Identity),
        }
    }

    /// The key pair that was drawn, if one was and both keys have 32 bytes.
    pub fn from_pair(drawn: Option<(Vec<u8>, Vec<u8>)>) -> (r: Result<Identity, SecurityError>)
        ensures
            match drawn {
                Some((private, public)) if private@.len() == 32 && public@.len() == 32 => {
                    r is Ok && r->Ok_0.private@ == private@ && r->Ok_0.public@ == public@
                },
                _ => r == Err::<Identity, SecurityError>(SecurityError::Identity),
            },
    {
        match drawn {
            Some((private, public)) => {
                if private.len() != 32 || public.len() != 32 {
                    return Err(SecurityError::Identity);
                }
                Ok(Identity { private: array_32(&private), public: array_32(&public) })
            },
            None => Err(SecurityError::Identity),
        }
    }

    /// A random key pair. Where the system has random numbers there is one: what
    /// is made of it is `from_pair`'s.
    pub fn generate() -> (r: Result<Identity, SecurityError>)
        ensures
            match r {
                Ok(identity) => identity.sound(),
                Err(error) => error == SecurityError::Identity,
            },
    {
        Identity::from_pair(noise_keypair(NOISE_PATTERN))
    }

    pub fn private_hex(&self) -> (r: String)
        ensures
            r@ == key_text(self.private@),
    {
        write_key(&self.private)
    }

    pub fn public_hex(&self) -> (r: String)
        ensures
            r@ == key_text(self.public@),
    {
        write_key(&self.public)
    }

    /// Overwrites both keys with zeros.
    pub fn erase(&mut self)
        ensures
            is_zero(final(self).private@),
            is_zero(final(self).public@),
    {
        wipe(&mut self.private);
        wipe(&mut self.public);
    }
}

/// A key pair is read back from the texts that were written of it, unless one of
/// its keys is zero.
pub proof fn an_identity_reads_back(identity: Identity)
    requires
        identity.sound(),
        !is_zero(identity.private@),
        !is_zero(identity.public@),
    ensures
        key_read(key_text(identity.private@)) == Ok::<Seq<u8>, Seq<char>>(identity.private@),
        key_read(key_text(identity.public@)) == Ok::<Seq<u8>, Seq<char>>(identity.public@),
        identity.public@ == x25519_public(identity.private@),
{
    crate::config::key_text_reads_back(identity.private@);
    crate::config::key_text_reads_back(identity.public@);
}

/// The digest of a key, in hexadecimal digits.
pub open spec fn fingerprint_of(public: Seq<u8>) -> Seq<char> {
    hex_text(sha256(public))
}

pub fn fingerprint(public: &[u8; 32]) -> (r: String)
    ensures
        r@ == fingerprint_of(public@),
        r@.len() == 64,
{
    let hash: [u8; 32] = digest(public);
    hex_encode(&hash)
}

/// The identifier of a client: the digest of its key.
pub fn client_id_from_public_key(public: &[u8; 32]) -> (r: String)
    ensures
        r@ == fingerprint_of(public@),
        is_id(r@),
{
    let hash: [u8; 32] = digest(public);
    proof {
        hex_text_is_an_id(hash@);
    }
    hex_encode(&hash)
}

/// The hexadecimal digits of 1 to 32 bytes are an identifier that the wire
/// accepts.
pub proof fn hex_text_is_an_id(bytes: Seq<u8>)
    requires
        0 < bytes.len() <= 32,
    ensures
        is_id(hex_text(bytes)),
{
    let text = hex_text(bytes);
    assert forall|i: int| 0 <= i < text.len() implies #[trigger] crate::protocol::is_id_char(text[i])
        && crate::text::is_alnum(text[i]) by {
        let b = bytes[i / 2];
        assert(b / 16 < 16 && b % 16 < 16);
    }
    assert(crate::protocol::is_id_char(text[0]));
    assert(crate::protocol::is_id_char(text[text.len() - 1]));
}

/// A random identifier of a request.
pub fn random_id() -> (r: [u8; 16]) {
    random_16()
}

/// A public key with which every exchange gives zero, or which is zero itself.
pub open spec fn weak_key(key: Seq<u8>) -> bool {
    is_zero(key) || low_order(key)
}

pub fn is_weak_key(key: &[u8; 32]) -> (r: bool)
    ensures
        r == weak_key(key@),
{
    all_zero(key) || is_low_order(key)
}

pub struct ClientHandshakeConfig {
    pub psk: [u8; 32],
    pub identity: Identity,
    pub client_id: String,
    pub pinned_server_key: Option<[u8; 32]>,
    pub clock_skew: u64,
    pub headers: Vec<Header>,
}

pub struct AllowedClientAuth {
    pub client_id: String,
    pub static_public_key: [u8; 32],
    /// Each host once. An empty list allows no host.
    pub allowed_hosts: Vec<String>,
}

pub struct ServerHandshakeConfig {
    pub psk: [u8; 32],
    pub identity: Identity,
    pub clock_skew: u64,
    pub headers: Vec<Header>,
    pub allowed_clients: Vec<AllowedClientAuth>,
}

/// A clock skew between one second and a minute.
pub open spec fn clamped_skew(skew: u64) -> u64 {
    if skew < SECOND {
        SECOND
    } else if skew > 60 * SECOND {
        (60 * SECOND) as u64
    } else {
        skew
    }
}

pub fn clamp_clock_skew(skew: u64) -> (r: u64)
    ensures
        r == clamped_skew(skew),
{
    if skew < SECOND {
        SECOND
    } else if skew > 60 * SECOND {
        60 * SECOND
    } else {
        skew
    }
}

/// The identifiers that the clients' names stand for.
pub open spec fn names_of(clients: Seq<AllowedClient>) -> Seq<Seq<char>> {
    clients.map_values(|client: AllowedClient| host_id_of(client.client_id@))
}

pub open spec fn keys_of(clients: Seq<AllowedClient>) -> Seq<Seq<u8>> {
    clients.map_values(|client: AllowedClient| key_read(client.static_public_key@)->Ok_0)
}

/// Each host that the client may wake is one of those known.
pub open spec fn hosts_known(client: AllowedClient, host_ids: Seq<Seq<char>>) -> bool {
    forall|i: int|
        0 <= i < client.allowed_hosts@.len() ==> host_ids.contains(
            host_id_of(#[trigger] client.allowed_hosts@[i]@),
        )
}

/// Why the first client from `k` on that is refused is refused.
pub open spec fn enrolment_fault(
    clients: Seq<AllowedClient>,
    host_ids: Seq<Seq<char>>,
    k: int,
) -> Option<SecurityError>
    decreases clients.len() - k,
{
    if k < 0 || k >= clients.len() {
        None
    } else {
        let id = host_id_of(clients[k].client_id@);
        let key = key_read(clients[k].static_public_key@);
        if !is_id(id) {
            Some(SecurityError::Handshake)
        } else if names_of(clients.take(k)).contains(id) {
            Some(SecurityError::Unauthorized)
        } else if key is Err || weak_key(key->Ok_0) {
            Some(SecurityError::Identity)
        } else if keys_of(clients.take(k)).contains(key->Ok_0) {
            Some(SecurityError::Unauthorized)
        } else if !hosts_known(clients[k], host_ids) {
            Some(SecurityError::Unauthorized)
        } else {
            enrolment_fault(clients, host_ids, k + 1)
        }
    }
}

/// The entry of the access list that a client of the settings gets.
pub open spec fn is_enrolled(auth: AllowedClientAuth, client: AllowedClient) -> bool {
    &&& auth.client_id@ == host_id_of(client.client_id@)
    &&& key_read(client.static_public_key@) == Ok::<Seq<u8>, Seq<char>>(auth.static_public_key@)
    &&& texts(auth.allowed_hosts@).no_duplicates()
    &&& forall|id: Seq<char>| #[trigger]
        texts(auth.allowed_hosts@).contains(id) <==> crate::config::normal_ids(
            texts(client.allowed_hosts@),
        ).contains(id)
}

/// Why the settings of a server are refused.
pub open spec fn server_config_fault(
    psk: Seq<u8>,
    identity: Identity,
    headers: Seq<Header>,
    clients: Seq<AllowedClient>,
    host_ids: Seq<Seq<char>>,
) -> Option<SecurityError> {
    if is_zero(psk) || weak_key(identity.public@) {
        Some(SecurityError::Identity)
    } else if headers_fault(header_models(headers)) is Some {
        Some(SecurityError::Protocol(headers_fault(header_models(headers))->0))
    } else {
        enrolment_fault(clients, host_ids, 0)
    }
}

/// The hosts of a client by their identifiers, each once; nothing if one is not
/// known.
#[verifier::loop_isolation(false)]
fn allowed_host_ids(client: &AllowedClient, host_ids: &Vec<String>) -> (r: Option<Vec<String>>)
    ensures
        match r {
            Some(list) => {
                &&& hosts_known(*client, texts(host_ids@))
                &&& texts(list@).no_duplicates()
                &&& forall|id: Seq<char>| #[trigger]
                    texts(list@).contains(id) <==> crate::config::normal_ids(
                        texts(client.allowed_hosts@),
                    ).contains(id)
            },
            None => !hosts_known(*client, texts(host_ids@)),
        },
{
    let ghost names = texts(client.allowed_hosts@);
    let ghost ids = crate::config::normal_ids(names);
    let mut list: Vec<String> = Vec::new();
    let mut i: usize = 0;
    while i < client.allowed_hosts.len()
        invariant
            i <= client.allowed_hosts@.len(),
            forall|k: int|
                0 <= k < i ==> texts(host_ids@).contains(
                    host_id_of(#[trigger] client.allowed_hosts@[k]@),
                ),
            texts(list@).no_duplicates(),
            forall|id: Seq<char>| #[trigger]
                texts(list@).contains(id) <==> ids.take(i as int).contains(id),
        decreases client.allowed_hosts@.len() - i,
    {
        let id: String = lower_text(&trim(&client.allowed_hosts[i]));
        if !listed(host_ids, &id) {
            assert(!texts(host_ids@).contains(host_id_of(client.allowed_hosts@[i as int]@)));
            return None;
        }
        let ghost before = texts(list@);
        assert(ids[i as int] == id@);
        let ghost taken = ids.take(i as int);
        assert(ids.take(i + 1) =~= taken.push(id@));
        assert forall|x: Seq<char>| #[trigger] taken.push(id@).contains(x) <==> taken.contains(x)
            || x == id@ by {
            if taken.contains(x) {
                let k = choose|k: int| 0 <= k < taken.len() && taken[k] == x;
                assert(taken.push(id@)[k] == x);
            }
            if x == id@ {
                assert(taken.push(id@)[taken.len() as int] == x);
            }
        }
        if !listed(&list, &id) {
            list.push(id);
            assert(texts(list@) =~= before.push(id@));
            assert forall|x: Seq<char>| #[trigger] before.push(id@).contains(x) <==> before.contains(
                x,
            ) || x == id@ by {
                if before.contains(x) {
                    let k = choose|k: int| 0 <= k < before.len() && before[k] == x;
                    assert(before.push(id@)[k] == x);
                }
                if x == id@ {
                    assert(before.push(id@)[before.len() as int] == x);
                }
            }
        }
        i += 1;
    }
    assert(ids.take(i as int) =~= ids);
    Some(list)
}

/// The access list of enrolled clients.
#[verifier::loop_isolation(false)]
pub fn enroll(clients: &Vec<AllowedClient>, host_ids: &Vec<String>) -> (r: Result<
    Vec<AllowedClientAuth>,
    SecurityError,
>)
    ensures
        match r {
            Ok(list) => {
                &&& enrolment_fault(clients@, texts(host_ids@), 0) is None
                &&& all_enrolled(list@, clients@)
            },
            Err(error) => enrolment_fault(clients@, texts(host_ids@), 0) == Some(error),
        },
{
    let ghost known = texts(host_ids@);
    let mut allowed_clients: Vec<AllowedClientAuth> = Vec::new();
    let mut names: Vec<String> = Vec::new();
    let mut keys: Vec<[u8; 32]> = Vec::new();
    let mut k: usize = 0;
    assert(crate::config::key_models(keys@) =~= keys_of(clients@.take(0)));
    while k < clients.len()
        invariant
            k <= clients@.len(),
            texts(names@) == names_of(clients@.take(k as int)),
            crate::config::key_models(keys@) == keys_of(clients@.take(k as int)),
            enrolment_fault(clients@, known, 0) == enrolment_fault(clients@, known, k as int),
            allowed_clients@.len() == k,
            forall|i: int| 0 <= i < k ==> is_enrolled(#[trigger] allowed_clients@[i], clients@[i]),
        decreases clients@.len() - k,
    {
        let client: &AllowedClient = &clients[k];
        let name: String = lower_text(&trim(&client.client_id));
        if validate_id(&name).is_err() {
            return Err(SecurityError::Handshake);
        }
        if listed(&names, &name) {
            return Err(SecurityError::Unauthorized);
        }
        let key: [u8; 32] = match decode_key(&client.static_public_key) {
            Ok(key) => key,
            Err(_) => {
                return Err(SecurityError::Identity);
            },
        };
        if is_weak_key(&key) {
            return Err(SecurityError::Identity);
        }
        if crate::config::key_listed(&keys, &key) {
            return Err(SecurityError::Unauthorized);
        }
        let allowed_hosts: Vec<String> = match allowed_host_ids(client, host_ids) {
            Some(list) => list,
            None => {
                return Err(SecurityError::Unauthorized);
            },
        };
        let ghost names_before = texts(names@);
        let ghost keys_before = crate::config::key_models(keys@);
        names.push(name.clone());
        keys.push(key);
        assert(texts(names@) =~= names_before.push(name@));
        assert(crate::config::key_models(keys@) =~= keys_before.push(key@));
        assert(names_of(clients@.take(k + 1)) =~= names_of(clients@.take(k as int)).push(name@));
        assert(keys_of(clients@.take(k + 1)) =~= keys_of(clients@.take(k as int)).push(key@));
        allowed_clients.push(
            AllowedClientAuth { client_id: name, static_public_key: key, allowed_hosts },
        );
        k += 1;
    }
    Ok(allowed_clients)
}

/// The access list is the one of the settings, client by client.
pub open spec fn all_enrolled(
    list: Seq<AllowedClientAuth>,
    clients: Seq<AllowedClient>,
) -> bool {
    &&& list.len() == clients.len()
    &&& forall|i: int| 0 <= i < clients.len() ==> is_enrolled(#[trigger] list[i], clients[i])
}

impl ServerHandshakeConfig {
    /// Checks what the server's side of the handshake is made of.
    pub fn from_config(
        psk: [u8; 32],
        identity: Identity,
        clock_skew: u64,
        headers: Vec<Header>,
        clients: &Vec<AllowedClient>,
        host_ids: &Vec<String>,
    ) -> (r: Result<ServerHandshakeConfig, SecurityError>)
        ensures
            ({
                let fault = server_config_fault(
                    psk@,
                    identity,
                    headers@,
                    clients@,
                    texts(host_ids@),
                );
                match r {
                    Ok(config) => {
                        &&& fault is None
                        &&& config.psk == psk
                        &&& config.identity == identity
                        &&& config.clock_skew == clamped_skew(clock_skew)
                        &&& ascending(header_models(config.headers@))
                        &&& header_models(config.headers@).to_multiset() == header_models(
                            headers@,
                        ).to_multiset()
                        &&& all_enrolled(config.allowed_clients@, clients@)
                    },
                    Err(error) => fault == Some(error),
                }
            }),
    {
        if all_zero(&psk) || is_weak_key(&identity.public) {
            return Err(SecurityError::Identity);
        }
        let headers: Vec<Header> = match canonical_headers(headers) {
            Ok(headers) => headers,
            Err(fault) => {
                return Err(SecurityError::Protocol(fault));
            },
        };
        match enroll(clients, host_ids) {
            Ok(allowed_clients) => Ok(
                ServerHandshakeConfig {
                    psk,
                    identity,
                    clock_skew: clamp_clock_skew(clock_skew),
                    headers,
                    allowed_clients,
                },
            ),
            Err(error) => Err(error),
        }
    }
}

/// The place of the client with a key in the access list.
pub open spec fn find_client(clients: Seq<AllowedClientAuth>, key: [u8; 32], k: int) -> Option<int>
    decreases clients.len() - k,
{
    if k < 0 || k >= clients.len() {
        None
    } else if clients[k].static_public_key == key {
        Some(k)
    } else {
        find_client(clients, key, k + 1)
    }
}

/// A client is let in if its key is enrolled under the identifier that it names,
/// and that is the digest of its key.
pub open spec fn is_authorized(
    clients: Seq<AllowedClientAuth>,
    client_id: Seq<char>,
    key: [u8; 32],
) -> bool {
    match find_client(clients, key, 0) {
        Some(i) => clients[i].client_id@ == client_id && client_id == fingerprint_of(key@),
        None => false,
    }
}

/// Checks a client against the access list.
#[verifier::loop_isolation(false)]
pub fn authorize_client(
    client_id: &str,
    static_public: &[u8; 32],
    clients: &Vec<AllowedClientAuth>,
) -> (r: Result<String, SecurityError>)
    ensures
        match r {
            Ok(id) => is_authorized(clients@, client_id@, *static_public) && id@ == client_id@,
            Err(error) => !is_authorized(clients@, client_id@, *static_public) && error
                == SecurityError::Unauthorized,
        },
{
    let mut k: usize = 0;
    while k < clients.len()
        invariant
            k <= clients@.len(),
            find_client(clients@, *static_public, 0) == find_client(
                clients@,
                *static_public,
                k as int,
            ),
        decreases clients@.len() - k,
    {
        let client: &AllowedClientAuth = &clients[k];
        if same_key(&client.static_public_key, static_public) {
            if !crate::text::same_text(&client.client_id, client_id) || !crate::text::same_text(
                &client.client_id,
                &client_id_from_public_key(static_public),
            ) {
                return Err(SecurityError::Unauthorized);
            }
            return Ok(client.client_id.clone());
        }
        k += 1;
    }
    Err(SecurityError::Unauthorized)
}

} // verus!
